use vstd::prelude::*;

use crate::ast::{
    LuaClosureV, LuaMethodTypeV, LuaMethodV, MethodMacroArgV, TestV, TypePathV, UserdataBlockV,
};
use crate::emit::{
    spec_args_tokens, spec_arg_tokens, spec_block_tokens, spec_closure_tokens, spec_docs_tokens,
    spec_method_tokens, spec_method_type_tokens, spec_methods_tokens, spec_path_tail_tokens,
    spec_path_tokens, spec_test_tokens,
};
use crate::codegen::spec_call_name;
use crate::error::ErrorV;
use crate::parse::{
    keyword_at, lemma_group_end_pos, lemma_macro_arg_pos, lemma_macro_args_pos, lemma_method_pos,
    lemma_method_type_pos, lemma_closure_pos, lemma_pure_end_pos, lemma_test_pos,
    spec_group_end, spec_parse_block, spec_parse_closure, spec_parse_docstrings,
    spec_parse_macro_arg, spec_parse_macro_args, spec_parse_method, spec_parse_method_type,
    spec_parse_methods, spec_parse_path_rest, spec_parse_test, spec_parse_type_path,
    spec_pure_end,
};
use crate::token::{balanced, is_closer, is_opener, prefix_depth, pure_expr_ok, tok_depth, TokenV};

verus! {

// ---------------------------------------------------------------------
// Delimiter-depth bookkeeping: how the two scanners relate to balance.
// ---------------------------------------------------------------------

/// Scanning a balanced body from any point inside it continues to the
/// closer that follows the body.
proof fn lemma_group_scan_from(ts: Seq<TokenV>, start: int, body: Seq<TokenV>, i: int)
    requires
        0 <= start,
        0 <= i <= body.len(),
        start + body.len() < ts.len(),
        ts.subrange(start, start + body.len() as int) == body,
        balanced(body),
        is_closer(ts[start + body.len()]),
    ensures
        spec_group_end(ts, start + i, prefix_depth(body, i)) == Some(start + body.len() as int),
    decreases body.len() - i,
{
    if i == body.len() {
        assert(prefix_depth(body, i) == 0);
    } else {
        lemma_group_scan_from(ts, start, body, i + 1);
        assert(ts[start + i] == ts.subrange(start, start + body.len() as int)[i]);
        assert(ts[start + i] == body[i]);
        assert(prefix_depth(body, i + 1) == prefix_depth(body, i) + tok_depth(body[i]));
        if is_closer(body[i]) {
            assert(prefix_depth(body, i + 1) >= 0);
            assert(prefix_depth(body, i) >= 1);
        }
    }
}

/// A balanced body followed by a closer scans to exactly that closer.
proof fn lemma_group_scan(ts: Seq<TokenV>, start: int, body: Seq<TokenV>)
    requires
        0 <= start,
        start + body.len() < ts.len(),
        ts.subrange(start, start + body.len() as int) == body,
        balanced(body),
        is_closer(ts[start + body.len()]),
    ensures
        spec_group_end(ts, start, 0) == Some(start + body.len() as int),
{
    lemma_group_scan_from(ts, start, body, 0);
}

proof fn lemma_pure_scan_from(ts: Seq<TokenV>, start: int, body: Seq<TokenV>, i: int)
    requires
        0 <= start,
        0 <= i <= body.len(),
        start + body.len() <= ts.len(),
        ts.subrange(start, start + body.len() as int) == body,
        pure_expr_ok(body),
        start + body.len() == ts.len() || (ts[start + body.len()] is Semi || ts[start
            + body.len()] is Arrow || is_closer(ts[start + body.len()])),
    ensures
        spec_pure_end(ts, start + i, prefix_depth(body, i)) == Some(start + body.len() as int),
    decreases body.len() - i,
{
    if i == body.len() {
        assert(prefix_depth(body, i) == 0);
    } else {
        lemma_pure_scan_from(ts, start, body, i + 1);
        assert(ts[start + i] == ts.subrange(start, start + body.len() as int)[i]);
        assert(ts[start + i] == body[i]);
        assert(prefix_depth(body, i + 1) == prefix_depth(body, i) + tok_depth(body[i]));
        if is_closer(body[i]) {
            assert(prefix_depth(body, i) >= 1);
        }
        if body[i] is Semi || body[i] is Arrow {
            assert(prefix_depth(body, i) != 0);
        }
    }
}

/// An undelimited expression run scans to exactly its terminator.
proof fn lemma_pure_scan(ts: Seq<TokenV>, start: int, body: Seq<TokenV>)
    requires
        0 <= start,
        start + body.len() <= ts.len(),
        ts.subrange(start, start + body.len() as int) == body,
        pure_expr_ok(body),
        start + body.len() == ts.len() || (ts[start + body.len()] is Semi || ts[start
            + body.len()] is Arrow || is_closer(ts[start + body.len()])),
    ensures
        spec_pure_end(ts, start, 0) == Some(start + body.len() as int),
{
    lemma_pure_scan_from(ts, start, body, 0);
}

/// Shifting a prefix depth across a leading token.
proof fn lemma_prefix_depth_cons(t: TokenV, rest: Seq<TokenV>, j: int)
    requires
        0 <= j <= rest.len(),
    ensures
        prefix_depth(seq![t] + rest, j + 1) == tok_depth(t) + prefix_depth(rest, j),
    decreases j,
{
    if j == 0 {
        assert(prefix_depth(seq![t] + rest, 1) == prefix_depth(seq![t] + rest, 0) + tok_depth(
            (seq![t] + rest)[0],
        ));
        assert((seq![t] + rest)[0] == t);
    } else {
        lemma_prefix_depth_cons(t, rest, j - 1);
        assert((seq![t] + rest)[j] == rest[j - 1]);
    }
}

/// What a successful group scan says of the tokens it skipped: they are
/// depth-balanced relative to the starting depth, and the scan ends on a
/// closer inside the input.
proof fn lemma_group_end_wf(ts: Seq<TokenV>, pos: int, depth: int, end: int)
    requires
        0 <= pos,
        0 <= depth,
        spec_group_end(ts, pos, depth) == Some(end),
    ensures
        pos <= end < ts.len(),
        is_closer(ts[end]),
        depth + prefix_depth(ts.subrange(pos, end), end - pos) == 0,
        forall|j: int| 0 <= j <= end - pos ==> depth + prefix_depth(ts.subrange(pos, end), j) >= 0,
    decreases ts.len() - pos,
{
    lemma_group_end_pos(ts, pos, depth);
    let body = ts.subrange(pos, end);
    if is_closer(ts[pos]) && depth == 0 {
        assert(end == pos);
        assert(body.len() == 0);
    } else {
        let d2 = if is_closer(ts[pos]) {
            depth - 1
        } else if is_opener(ts[pos]) {
            depth + 1
        } else {
            depth
        };
        lemma_group_end_wf(ts, pos + 1, d2, end);
        let rest = ts.subrange(pos + 1, end);
        assert(body =~= seq![ts[pos]] + rest);
        assert forall|j: int| 0 <= j <= end - pos implies depth + prefix_depth(body, j)
            >= 0 by {
            if j == 0 {
            } else {
                lemma_prefix_depth_cons(ts[pos], rest, j - 1);
                assert(prefix_depth(body, j) == tok_depth(ts[pos]) + prefix_depth(rest, j - 1));
            }
        }
        lemma_prefix_depth_cons(ts[pos], rest, end - pos - 1);
        assert(depth + prefix_depth(body, end - pos) == d2 + prefix_depth(rest, end - pos - 1));
    }
}

/// The same facts for the undelimited-expression scan, plus: no `;` or
/// `=>` stands at relative depth zero inside the run.
proof fn lemma_pure_end_wf(ts: Seq<TokenV>, pos: int, depth: int, end: int)
    requires
        0 <= pos <= ts.len(),
        0 <= depth,
        spec_pure_end(ts, pos, depth) == Some(end),
    ensures
        pos <= end <= ts.len(),
        forall|j: int| 0 <= j <= end - pos ==> depth + prefix_depth(ts.subrange(pos, end), j) >= 0,
        depth + prefix_depth(ts.subrange(pos, end), end - pos) == 0,
        forall|j: int|
            0 <= j < end - pos && depth + prefix_depth(ts.subrange(pos, end), j) == 0 ==> !(
            ts.subrange(pos, end)[j] is Semi || ts.subrange(pos, end)[j] is Arrow),
    decreases ts.len() - pos,
{
    lemma_pure_end_pos(ts, pos, depth);
    let body = ts.subrange(pos, end);
    if pos == ts.len() {
        assert(end == pos);
        assert(body.len() == 0);
    } else if is_closer(ts[pos]) && depth == 0 {
        assert(end == pos);
        assert(body.len() == 0);
    } else if (ts[pos] is Semi || ts[pos] is Arrow) && depth == 0 {
        assert(end == pos);
        assert(body.len() == 0);
    } else {
        let d2 = if is_closer(ts[pos]) {
            depth - 1
        } else if is_opener(ts[pos]) {
            depth + 1
        } else {
            depth
        };
        lemma_pure_end_wf(ts, pos + 1, d2, end);
        let rest = ts.subrange(pos + 1, end);
        assert(body =~= seq![ts[pos]] + rest);
        assert forall|j: int| 0 <= j <= end - pos implies depth + prefix_depth(body, j)
            >= 0 by {
            if j > 0 {
                lemma_prefix_depth_cons(ts[pos], rest, j - 1);
            }
        }
        assert forall|j: int|
            0 <= j < end - pos && depth + prefix_depth(body, j) == 0 implies !(body[j] is Semi
            || body[j] is Arrow) by {
            if j == 0 {
                assert(body[0] == ts[pos]);
            } else {
                lemma_prefix_depth_cons(ts[pos], rest, j - 1);
                assert(body[j] == rest[j - 1]);
            }
        }
        lemma_prefix_depth_cons(ts[pos], rest, end - pos - 1);
    }
}

/// A successful group scan from depth zero brackets a balanced body.
proof fn lemma_group_end_balanced(ts: Seq<TokenV>, pos: int, end: int)
    requires
        0 <= pos,
        spec_group_end(ts, pos, 0) == Some(end),
    ensures
        pos <= end < ts.len(),
        is_closer(ts[end]),
        balanced(ts.subrange(pos, end)),
{
    lemma_group_end_wf(ts, pos, 0, end);
    let body = ts.subrange(pos, end);
    assert(prefix_depth(body, body.len() as int) == 0);
}

/// A successful expression scan from depth zero brackets a run fit to
/// stand as an undelimited closure expression, provided it is not empty.
proof fn lemma_pure_end_expr_ok(ts: Seq<TokenV>, pos: int, end: int)
    requires
        0 <= pos <= ts.len(),
        spec_pure_end(ts, pos, 0) == Some(end),
        end > pos,
    ensures
        pos <= end <= ts.len(),
        pure_expr_ok(ts.subrange(pos, end)),
{
    lemma_pure_end_wf(ts, pos, 0, end);
    let body = ts.subrange(pos, end);
    assert(prefix_depth(body, body.len() as int) == 0);
}

// ---------------------------------------------------------------------
// Parsing produces only well-formed trees.
// ---------------------------------------------------------------------

proof fn lemma_parse_type_path_wf(ts: Seq<TokenV>, pos: int)
    requires
        0 <= pos,
    ensures
        spec_parse_type_path(ts, pos) matches Ok((p, q)) ==> p.wf(),
{
}

proof fn lemma_parse_macro_arg_wf(ts: Seq<TokenV>, pos: int)
    requires
        0 <= pos,
    ensures
        spec_parse_macro_arg(ts, pos) matches Ok((a, q)) ==> a.wf(),
{
    lemma_parse_type_path_wf(ts, pos + 2);
}

proof fn lemma_parse_macro_args_wf(ts: Seq<TokenV>, pos: int)
    requires
        0 <= pos,
    ensures
        spec_parse_macro_args(ts, pos) matches Ok((args, q)) ==> forall|i: int|
            0 <= i < args.len() ==> (#[trigger] args[i]).wf(),
    decreases ts.len() - pos,
{
    if 0 <= pos < ts.len() && ts[pos] is CloseParen {
    } else {
        lemma_parse_macro_arg_wf(ts, pos);
        lemma_macro_arg_pos(ts, pos);
        match spec_parse_macro_arg(ts, pos) {
            Ok((arg, p)) => {
                if pos < p <= ts.len() && p < ts.len() && ts[p] is Comma {
                    lemma_parse_macro_args_wf(ts, p + 1);
                    match spec_parse_macro_args(ts, p + 1) {
                        Ok((rest, q)) => {
                            assert forall|i: int| 0 <= i < (seq![arg] + rest).len() implies (
                            #[trigger] (seq![arg] + rest)[i]).wf() by {
                                if i > 0 {
                                    assert((seq![arg] + rest)[i] == rest[i - 1]);
                                }
                            }
                        },
                        _ => {},
                    }
                }
            },
            _ => {},
        }
    }
}

proof fn lemma_parse_method_type_wf(ts: Seq<TokenV>, pos: int)
    requires
        0 <= pos,
    ensures
        spec_parse_method_type(ts, pos) matches Ok((mt, q)) ==> mt.wf(),
{
    let p1 = if keyword_at(ts, pos, "static"@) {
        pos + 1
    } else {
        pos
    };
    let p2 = if keyword_at(ts, p1, "mut"@) {
        p1 + 1
    } else {
        p1
    };
    let p3 = if keyword_at(ts, p2, "fn"@) {
        p2 + 1
    } else {
        p2
    };
    lemma_parse_type_path_wf(ts, p3 + 1);
}

proof fn lemma_parse_closure_wf(ts: Seq<TokenV>, pos: int)
    requires
        0 <= pos,
    ensures
        spec_parse_closure(ts, pos) matches Ok((c, q)) ==> c.wf(),
{
    if 0 <= pos < ts.len() && ts[pos] is OpenParen {
        lemma_parse_macro_args_wf(ts, pos + 1);
        lemma_macro_args_pos(ts, pos + 1);
        match spec_parse_macro_args(ts, pos + 1) {
            Ok((args, p1)) => {
                match spec_group_end(ts, p1 + 2, 0) {
                    Some(end) => {
                        lemma_group_end_balanced(ts, p1 + 2, end);
                    },
                    None => {},
                }
            },
            _ => {},
        }
    } else if 0 <= pos < ts.len() && ts[pos] is Arrow {
        match spec_pure_end(ts, pos + 1, 0) {
            Some(end) => {
                if end > pos + 1 {
                    lemma_pure_end_expr_ok(ts, pos + 1, end);
                }
            },
            None => {},
        }
    }
}

proof fn lemma_parse_test_wf(ts: Seq<TokenV>, pos: int)
    requires
        0 <= pos,
    ensures
        spec_parse_test(ts, pos) matches Ok((t, q)) ==> t.wf(),
{
    if 0 <= pos < ts.len() && ts[pos] is OpenBrace {
        match spec_group_end(ts, pos + 1, 0) {
            Some(end) => {
                lemma_group_end_balanced(ts, pos + 1, end);
            },
            None => {},
        }
    }
}

proof fn lemma_parse_method_wf(ts: Seq<TokenV>, pos: int)
    requires
        0 <= pos,
    ensures
        spec_parse_method(ts, pos) matches Ok((m, q)) ==> m.wf(),
{
    let p0 = spec_parse_docstrings(ts, pos).1;
    crate::parse::lemma_docstrings_pos(ts, pos);
    lemma_parse_method_type_wf(ts, p0);
    lemma_method_type_pos(ts, p0);
    match spec_parse_method_type(ts, p0) {
        Ok((mt, p1)) => {
            lemma_parse_closure_wf(ts, p1);
            lemma_closure_pos(ts, p1);
            match spec_parse_closure(ts, p1) {
                Ok((cl, p2)) => {
                    lemma_parse_test_wf(ts, p2 + 1);
                },
                _ => {},
            }
        },
        _ => {},
    }
}

proof fn lemma_parse_methods_wf(ts: Seq<TokenV>, pos: int)
    requires
        0 <= pos,
    ensures
        spec_parse_methods(ts, pos) matches Ok((ms, q)) ==> forall|i: int|
            0 <= i < ms.len() ==> (#[trigger] ms[i]).wf(),
    decreases ts.len() - pos,
{
    if 0 <= pos < ts.len() && ts[pos] is CloseBrace {
    } else {
        lemma_parse_method_wf(ts, pos);
        lemma_method_pos(ts, pos);
        match spec_parse_method(ts, pos) {
            Ok((m, p)) => {
                if pos < p <= ts.len() && p < ts.len() && ts[p] is Semi {
                    lemma_parse_methods_wf(ts, p + 1);
                    match spec_parse_methods(ts, p + 1) {
                        Ok((rest, q)) => {
                            assert forall|i: int| 0 <= i < (seq![m] + rest).len() implies (
                            #[trigger] (seq![m] + rest)[i]).wf() by {
                                if i > 0 {
                                    assert((seq![m] + rest)[i] == rest[i - 1]);
                                }
                            }
                        },
                        _ => {},
                    }
                }
            },
            _ => {},
        }
    }
}

/// Every tree the parser accepts is well formed.
pub proof fn lemma_parse_block_wf(ts: Seq<TokenV>)
    ensures
        spec_parse_block(ts) matches Ok(b) ==> b.wf(),
{
    lemma_parse_methods_wf(ts, 2);
}

// ---------------------------------------------------------------------
// Serialized trees parse back to themselves.
// ---------------------------------------------------------------------

/// Splits knowledge of a two-part subrange into its parts.
proof fn lemma_subrange_shift(ts: Seq<TokenV>, start: int, a: Seq<TokenV>, b: Seq<TokenV>)
    requires
        0 <= start,
        start + a.len() + b.len() <= ts.len(),
        ts.subrange(start, start + a.len() + b.len()) == a + b,
    ensures
        ts.subrange(start, start + a.len() as int) == a,
        ts.subrange(start + a.len(), start + a.len() + b.len()) == b,
{
    assert forall|j: int| 0 <= j < a.len() implies ts.subrange(start, start + a.len() as int)[j]
        == a[j] by {
        assert(ts.subrange(start, start + a.len() + b.len())[j] == (a + b)[j]);
    }
    assert(ts.subrange(start, start + a.len() as int) =~= a);
    assert forall|j: int|
        0 <= j < b.len() implies ts.subrange(start + a.len(), start + a.len() + b.len())[j]
        == b[j] by {
        assert(ts.subrange(start, start + a.len() + b.len())[a.len() + j] == (a + b)[a.len()
            + j]);
        assert(ts.subrange(start, start + a.len() + b.len())[a.len() + j] == ts[start + a.len()
            + j]);
        assert((a + b)[a.len() + j] == b[j]);
        assert(ts.subrange(start + a.len(), start + a.len() + b.len())[j] == ts[start + a.len()
            + j]);
    }
    assert(ts.subrange(start + a.len(), start + a.len() + b.len()) =~= b);
}

proof fn lemma_reparse_path_rest(ts: Seq<TokenV>, start: int, segs: Seq<Seq<char>>, i: int)
    requires
        0 <= start,
        0 <= i <= segs.len(),
        start + spec_path_tail_tokens(segs, i).len() <= ts.len(),
        ts.subrange(start, start + spec_path_tail_tokens(segs, i).len()) == spec_path_tail_tokens(
            segs,
            i,
        ),
        start + spec_path_tail_tokens(segs, i).len() == ts.len() || !(ts[start
            + spec_path_tail_tokens(segs, i).len()] is PathSep),
    ensures
        spec_parse_path_rest(ts, start) == Ok::<(Seq<Seq<char>>, int), ErrorV>(
            (segs.skip(i), start + spec_path_tail_tokens(segs, i).len()),
        ),
    decreases segs.len() - i,
{
    let tail = spec_path_tail_tokens(segs, i);
    if i == segs.len() {
        assert(tail.len() == 0);
        assert(segs.skip(i) =~= Seq::<Seq<char>>::empty());
    } else {
        let head: Seq<TokenV> = seq![TokenV::PathSep, TokenV::Ident(segs[i])];
        let rest = spec_path_tail_tokens(segs, i + 1);
        assert(tail == head + rest);
        lemma_subrange_shift(ts, start, head, rest);
        assert(ts[start] == ts.subrange(start, start + 2)[0]);
        assert(ts[start + 1] == ts.subrange(start, start + 2)[1]);
        assert(ts[start] == TokenV::PathSep);
        assert(ts[start + 1] == TokenV::Ident(segs[i]));
        lemma_reparse_path_rest(ts, start + 2, segs, i + 1);
        assert(seq![segs[i]] + segs.skip(i + 1) =~= segs.skip(i));
    }
}

proof fn lemma_reparse_type_path(ts: Seq<TokenV>, start: int, p: TypePathV)
    requires
        0 <= start,
        p.wf(),
        start + spec_path_tokens(p).len() <= ts.len(),
        ts.subrange(start, start + spec_path_tokens(p).len()) == spec_path_tokens(p),
        start + spec_path_tokens(p).len() == ts.len() || !(ts[start
            + spec_path_tokens(p).len()] is PathSep),
    ensures
        spec_parse_type_path(ts, start) == Ok::<(TypePathV, int), ErrorV>(
            (p, start + spec_path_tokens(p).len()),
        ),
{
    let toks = spec_path_tokens(p);
    let head: Seq<TokenV> = seq![TokenV::Ident(p.segments[0])];
    let rest = spec_path_tail_tokens(p.segments, 1);
    assert(toks == head + rest);
    lemma_subrange_shift(ts, start, head, rest);
    assert(ts[start] == ts.subrange(start, start + 1)[0]);
    assert(ts[start] == TokenV::Ident(p.segments[0]));
    lemma_reparse_path_rest(ts, start + 1, p.segments, 1);
    assert(seq![p.segments[0]] + p.segments.skip(1) =~= p.segments);
}

/// The serialized form of a well-formed method kind never starts with a
/// token the docstring collector or the entry-list parser would take.
proof fn lemma_method_type_first_token(mt: LuaMethodTypeV)
    requires
        mt.wf(),
    ensures
        spec_method_type_tokens(mt).len() > 0,
        !(spec_method_type_tokens(mt)[0] is DocString),
        !(spec_method_type_tokens(mt)[0] is CloseBrace),
{
    let toks = spec_method_type_tokens(mt);
    if mt.is_static {
        assert(toks[0] == TokenV::Ident("static"@));
    } else if mt.is_mut {
        assert(toks[0] == TokenV::Ident("mut"@));
    } else if mt.is_function {
        assert(toks[0] == TokenV::Ident("fn"@));
    } else if mt.is_meta {
        assert(toks[0] == TokenV::OpenParen);
    } else {
        match mt.method_name {
            Some(n) => {
                assert(toks[0] == TokenV::StrLit(n));
            },
            None => {},
        }
    }
}

proof fn lemma_reparse_method_type(ts: Seq<TokenV>, start: int, mt: LuaMethodTypeV)
    requires
        0 <= start,
        mt.wf(),
        start + spec_method_type_tokens(mt).len() <= ts.len(),
        ts.subrange(start, start + spec_method_type_tokens(mt).len()) == spec_method_type_tokens(
            mt,
        ),
    ensures
        spec_parse_method_type(ts, start) == Ok::<(LuaMethodTypeV, int), ErrorV>(
            (mt, start + spec_method_type_tokens(mt).len()),
        ),
{
    reveal_strlit("static");
    reveal_strlit("mut");
    reveal_strlit("fn");
    assert("mut"@.len() == 3);
    assert("static"@.len() == 6);
    assert("fn"@.len() == 2);
    assert("mut"@ != "static"@);
    assert("fn"@ != "static"@);
    assert("fn"@ != "mut"@);
    let toks = spec_method_type_tokens(mt);
    let s1: Seq<TokenV> = if mt.is_static {
        seq![TokenV::Ident("static"@)]
    } else {
        Seq::empty()
    };
    let s2: Seq<TokenV> = if mt.is_mut {
        seq![TokenV::Ident("mut"@)]
    } else {
        Seq::empty()
    };
    let s3: Seq<TokenV> = if mt.is_function {
        seq![TokenV::Ident("fn"@)]
    } else {
        Seq::empty()
    };
    let disc: Seq<TokenV> = if mt.is_meta {
        match mt.meta_method {
            Some(p) => seq![TokenV::OpenParen] + spec_path_tokens(p) + seq![TokenV::CloseParen],
            None => Seq::empty(),
        }
    } else {
        match mt.method_name {
            Some(n) => seq![TokenV::StrLit(n)],
            None => Seq::empty(),
        }
    };
    assert(toks =~= s1 + (s2 + (s3 + disc)));
    lemma_subrange_shift(ts, start, s1, s2 + (s3 + disc));
    let q1 = start + s1.len();
    lemma_subrange_shift(ts, q1, s2, s3 + disc);
    let q2 = q1 + s2.len();
    lemma_subrange_shift(ts, q2, s3, disc);
    let q3 = q2 + s3.len();
    assert(ts.subrange(q3, q3 + disc.len()) == disc);
    assert(disc.len() > 0) by {
        if mt.is_meta {
            match mt.meta_method {
                Some(p) => {
                    assert(disc[0] == TokenV::OpenParen);
                },
                None => {},
            }
        }
    }
    assert(ts[q3] == ts.subrange(q3, q3 + disc.len())[0]);
    assert(ts[q3] == disc[0]);
    let disc0 = disc[0];
    assert(disc0 is OpenParen || disc0 is StrLit) by {
        if mt.is_meta {
            match mt.meta_method {
                Some(p) => {
                    assert(disc[0] == TokenV::OpenParen);
                },
                None => {},
            }
        }
    }

    // Where each keyword token stands, when its flag is set.
    if mt.is_static {
        assert(ts[start] == ts.subrange(start, start + 1)[0]);
        assert(ts[start] == TokenV::Ident("static"@));
    }
    if mt.is_mut {
        assert(ts[q1] == ts.subrange(q1, q1 + 1)[0]);
        assert(ts[q1] == TokenV::Ident("mut"@));
    }
    if mt.is_function {
        assert(ts[q2] == ts.subrange(q2, q2 + 1)[0]);
        assert(ts[q2] == TokenV::Ident("fn"@));
    }

    // The keyword peeks land exactly on the flags.
    if mt.is_static {
        assert(keyword_at(ts, start, "static"@));
    } else {
        assert(start == q1);
        assert(keyword_at(ts, start, "static"@) == false) by {
            reveal_strlit("static");
            reveal_strlit("mut");
            reveal_strlit("fn");
            assert("mut"@ != "static"@);
            assert("fn"@ != "static"@);
            if mt.is_mut {
                assert(ts[start] == TokenV::Ident("mut"@));
            } else if mt.is_function {
                assert(start == q2);
                assert(ts[start] == TokenV::Ident("fn"@));
            } else {
                assert(start == q3);
                assert(ts[start] == disc0);
            }
        }
    }
    let p1 = if keyword_at(ts, start, "static"@) {
        start + 1
    } else {
        start
    };
    assert(p1 == q1);
    if mt.is_mut {
        assert(keyword_at(ts, q1, "mut"@));
    } else {
        assert(keyword_at(ts, q1, "mut"@) == false) by {
            reveal_strlit("mut");
            reveal_strlit("fn");
            assert("fn"@ != "mut"@);
            if mt.is_function {
                assert(q1 == q2);
                assert(ts[q1] == TokenV::Ident("fn"@));
            } else {
                assert(q1 == q3);
                assert(ts[q1] == disc0);
            }
        }
    }
    let p2 = if keyword_at(ts, p1, "mut"@) {
        p1 + 1
    } else {
        p1
    };
    assert(p2 == q2);
    if mt.is_function {
        assert(ts[q2] == ts.subrange(q2, q2 + 1)[0]);
        assert(keyword_at(ts, q2, "fn"@));
    } else {
        assert(keyword_at(ts, q2, "fn"@) == false) by {
            if q2 < ts.len() {
                assert(ts[q2] == disc0);
            }
        }
    }
    let p3 = if keyword_at(ts, p2, "fn"@) {
        p2 + 1
    } else {
        p2
    };
    assert(p3 == q3);

    if mt.is_meta {
        match mt.meta_method {
            Some(p) => {
                let pathtoks = spec_path_tokens(p);
                assert(disc =~= seq![TokenV::OpenParen] + (pathtoks + seq![TokenV::CloseParen]));
                lemma_subrange_shift(ts, q3, seq![TokenV::OpenParen], pathtoks + seq![TokenV::CloseParen]);
                lemma_subrange_shift(ts, q3 + 1, pathtoks, seq![TokenV::CloseParen]);
                let q4 = q3 + 1 + pathtoks.len();
                assert(ts[q4] == ts.subrange(q4, q4 + 1)[0]);
                assert(ts[q4] == TokenV::CloseParen);
                lemma_reparse_type_path(ts, q3 + 1, p);
                match spec_parse_method_type(ts, start) {
                    Ok((mt2, pe)) => {
                        assert(mt2 == mt);
                        assert(pe == start + toks.len());
                    },
                    _ => {
                        assert(false);
                    },
                }
            },
            None => {
                assert(false);
            },
        }
    } else {
        match mt.method_name {
            Some(n) => {
                assert(ts[q3] == TokenV::StrLit(n));
                match spec_parse_method_type(ts, start) {
                    Ok((mt2, pe)) => {
                        assert(mt2 == mt);
                        assert(pe == start + toks.len());
                    },
                    _ => {
                        assert(false);
                    },
                }
            },
            None => {
                assert(false);
            },
        }
    }
}

proof fn lemma_reparse_macro_arg(ts: Seq<TokenV>, start: int, a: MethodMacroArgV)
    requires
        0 <= start,
        a.wf(),
        start + spec_arg_tokens(a).len() <= ts.len(),
        ts.subrange(start, start + spec_arg_tokens(a).len()) == spec_arg_tokens(a),
        start + spec_arg_tokens(a).len() == ts.len() || !(ts[start
            + spec_arg_tokens(a).len()] is PathSep),
    ensures
        spec_parse_macro_arg(ts, start) == Ok::<(MethodMacroArgV, int), ErrorV>(
            (a, start + spec_arg_tokens(a).len()),
        ),
{
    let head: Seq<TokenV> = seq![TokenV::Ident(a.ident), TokenV::Equals];
    let pt = spec_path_tokens(a.replacement);
    assert(spec_arg_tokens(a) == head + pt);
    lemma_subrange_shift(ts, start, head, pt);
    assert(ts[start] == ts.subrange(start, start + 2)[0]);
    assert(ts[start + 1] == ts.subrange(start, start + 2)[1]);
    assert(ts[start] == TokenV::Ident(a.ident));
    assert(ts[start + 1] == TokenV::Equals);
    lemma_reparse_type_path(ts, start + 2, a.replacement);
}

proof fn lemma_reparse_args(ts: Seq<TokenV>, start: int, args: Seq<MethodMacroArgV>, i: int)
    requires
        0 <= start,
        0 <= i <= args.len(),
        forall|j: int| i <= j < args.len() ==> (#[trigger] args[j]).wf(),
        start + spec_args_tokens(args, i).len() < ts.len(),
        ts.subrange(start, start + spec_args_tokens(args, i).len()) == spec_args_tokens(args, i),
        ts[start + spec_args_tokens(args, i).len()] is CloseParen,
    ensures
        spec_parse_macro_args(ts, start) == Ok::<(Seq<MethodMacroArgV>, int), ErrorV>(
            (args.skip(i), start + spec_args_tokens(args, i).len() + 1),
        ),
    decreases args.len() - i,
{
    let toks = spec_args_tokens(args, i);
    if i == args.len() {
        assert(toks.len() == 0);
        assert(args.skip(i) =~= Seq::<MethodMacroArgV>::empty());
    } else {
        let at = spec_arg_tokens(args[i]);
        lemma_macro_arg_pos(ts, start);
        if i == args.len() - 1 {
            assert(toks == at);
            lemma_reparse_macro_arg(ts, start, args[i]);
            assert(ts[start] == ts.subrange(start, start + at.len() as int)[0]);
            assert(!(ts[start] is CloseParen));
            assert(args.skip(i) =~= seq![args[i]]);
        } else {
            let rest = spec_args_tokens(args, i + 1);
            assert(toks =~= at + (seq![TokenV::Comma] + rest));
            lemma_subrange_shift(ts, start, at, seq![TokenV::Comma] + rest);
            let q1 = start + at.len();
            lemma_subrange_shift(ts, q1, seq![TokenV::Comma], rest);
            assert(ts[q1] == ts.subrange(q1, q1 + 1)[0]);
            assert(ts[q1] == TokenV::Comma);
            lemma_reparse_macro_arg(ts, start, args[i]);
            assert(ts[start] == ts.subrange(start, start + at.len() as int)[0]);
            assert(!(ts[start] is CloseParen));
            lemma_reparse_args(ts, q1 + 1, args, i + 1);
            assert(seq![args[i]] + args.skip(i + 1) =~= args.skip(i));
        }
    }
}

proof fn lemma_reparse_closure(ts: Seq<TokenV>, start: int, c: LuaClosureV)
    requires
        0 <= start,
        c.wf(),
        start + spec_closure_tokens(c).len() <= ts.len(),
        ts.subrange(start, start + spec_closure_tokens(c).len()) == spec_closure_tokens(c),
        start + spec_closure_tokens(c).len() == ts.len() || (ts[start
            + spec_closure_tokens(c).len()] is Semi || ts[start
            + spec_closure_tokens(c).len()] is Arrow || is_closer(
            ts[start + spec_closure_tokens(c).len()],
        )),
    ensures
        spec_parse_closure(ts, start) == Ok::<(LuaClosureV, int), ErrorV>(
            (c, start + spec_closure_tokens(c).len()),
        ),
{
    let toks = spec_closure_tokens(c);
    match c {
        LuaClosureV::MetaClosure { args, expr } => {
            let at = spec_args_tokens(args, 0);
            let mid: Seq<TokenV> = seq![TokenV::CloseParen, TokenV::Arrow, TokenV::OpenBrace];
            let post: Seq<TokenV> = seq![TokenV::CloseBrace];
            assert(toks =~= seq![TokenV::OpenParen] + (at + (mid + (expr + post))));
            lemma_subrange_shift(ts, start, seq![TokenV::OpenParen], at + (mid + (expr + post)));
            lemma_subrange_shift(ts, start + 1, at, mid + (expr + post));
            let q1 = start + 1 + at.len();
            lemma_subrange_shift(ts, q1, mid, expr + post);
            let q2 = q1 + 3;
            lemma_subrange_shift(ts, q2, expr, post);
            let q3 = q2 + expr.len();
            assert(ts[start] == ts.subrange(start, start + 1)[0]);
            assert(ts[start] == TokenV::OpenParen);
            assert(ts[q1] == ts.subrange(q1, q1 + 3)[0]);
            assert(ts[q1 + 1] == ts.subrange(q1, q1 + 3)[1]);
            assert(ts[q1 + 2] == ts.subrange(q1, q1 + 3)[2]);
            assert(ts[q1] == TokenV::CloseParen);
            assert(ts[q1 + 1] == TokenV::Arrow);
            assert(ts[q1 + 2] == TokenV::OpenBrace);
            assert(ts[q3] == ts.subrange(q3, q3 + 1)[0]);
            assert(ts[q3] == TokenV::CloseBrace);
            lemma_reparse_args(ts, start + 1, args, 0);
            assert(args.skip(0) =~= args);
            lemma_group_scan(ts, q2, expr);
            assert(ts.subrange(q2, q3) == expr);
            match spec_parse_closure(ts, start) {
                Ok((c2, pe)) => {
                    assert(c2 == c);
                    assert(pe == start + toks.len());
                },
                _ => {
                    assert(false);
                },
            }
        },
        LuaClosureV::PureClosure { expr } => {
            assert(toks =~= seq![TokenV::Arrow] + expr);
            lemma_subrange_shift(ts, start, seq![TokenV::Arrow], expr);
            assert(ts[start] == ts.subrange(start, start + 1)[0]);
            assert(ts[start] == TokenV::Arrow);
            lemma_pure_scan(ts, start + 1, expr);
            match spec_parse_closure(ts, start) {
                Ok((c2, pe)) => {
                    assert(c2 == c);
                    assert(pe == start + toks.len());
                },
                _ => {
                    assert(false);
                },
            }
        },
    }
}

proof fn lemma_reparse_test(ts: Seq<TokenV>, start: int, t: TestV)
    requires
        0 <= start,
        t.wf(),
        start + spec_test_tokens(t).len() <= ts.len(),
        ts.subrange(start, start + spec_test_tokens(t).len()) == spec_test_tokens(t),
    ensures
        spec_parse_test(ts, start) == Ok::<(TestV, int), ErrorV>(
            (t, start + spec_test_tokens(t).len()),
        ),
{
    let toks = spec_test_tokens(t);
    assert(toks =~= seq![TokenV::OpenBrace] + (t.ts + seq![TokenV::CloseBrace]));
    lemma_subrange_shift(ts, start, seq![TokenV::OpenBrace], t.ts + seq![TokenV::CloseBrace]);
    lemma_subrange_shift(ts, start + 1, t.ts, seq![TokenV::CloseBrace]);
    let q = start + 1 + t.ts.len();
    assert(ts[start] == ts.subrange(start, start + 1)[0]);
    assert(ts[start] == TokenV::OpenBrace);
    assert(ts[q] == ts.subrange(q, q + 1)[0]);
    assert(ts[q] == TokenV::CloseBrace);
    lemma_group_scan(ts, start + 1, t.ts);
    assert(ts.subrange(start + 1, q) == t.ts);
    match spec_parse_test(ts, start) {
        Ok((t2, pe)) => {
            assert(t2 == t);
        },
        _ => {
            assert(false);
        },
    }
}

proof fn lemma_reparse_docstrings(ts: Seq<TokenV>, start: int, docs: Seq<Seq<char>>, i: int)
    requires
        0 <= start,
        0 <= i <= docs.len(),
        start + spec_docs_tokens(docs, i).len() <= ts.len(),
        ts.subrange(start, start + spec_docs_tokens(docs, i).len()) == spec_docs_tokens(docs, i),
        start + spec_docs_tokens(docs, i).len() == ts.len() || !(ts[start + spec_docs_tokens(
            docs,
            i,
        ).len()] is DocString),
    ensures
        spec_parse_docstrings(ts, start) == (docs.skip(i), start + spec_docs_tokens(
            docs,
            i,
        ).len() as int),
    decreases docs.len() - i,
{
    let toks = spec_docs_tokens(docs, i);
    if i == docs.len() {
        assert(toks.len() == 0);
        assert(docs.skip(i) =~= Seq::<Seq<char>>::empty());
    } else {
        let rest = spec_docs_tokens(docs, i + 1);
        assert(toks == seq![TokenV::DocString(docs[i])] + rest);
        lemma_subrange_shift(ts, start, seq![TokenV::DocString(docs[i])], rest);
        assert(ts[start] == ts.subrange(start, start + 1)[0]);
        assert(ts[start] == TokenV::DocString(docs[i]));
        lemma_reparse_docstrings(ts, start + 1, docs, i + 1);
        assert(seq![docs[i]] + docs.skip(i + 1) =~= docs.skip(i));
    }
}

/// The serialized form of a well-formed method entry starts with a token
/// the entry-list parser never mistakes for the end of the block.
proof fn lemma_method_first_token(m: LuaMethodV)
    requires
        m.wf(),
    ensures
        spec_method_tokens(m).len() > 0,
        !(spec_method_tokens(m)[0] is CloseBrace),
{
    lemma_method_type_first_token(m.method_type);
    let toks = spec_method_tokens(m);
    let docsT = spec_docs_tokens(m.docstring, 0);
    if m.docstring.len() > 0 {
        assert(docsT[0] == TokenV::DocString(m.docstring[0]));
        assert(toks[0] == docsT[0]);
    } else {
        assert(docsT.len() == 0);
        assert(toks[0] == spec_method_type_tokens(m.method_type)[0]);
    }
}

proof fn lemma_reparse_method(ts: Seq<TokenV>, start: int, m: LuaMethodV)
    requires
        0 <= start,
        m.wf(),
        start + spec_method_tokens(m).len() <= ts.len(),
        ts.subrange(start, start + spec_method_tokens(m).len()) == spec_method_tokens(m),
        start + spec_method_tokens(m).len() == ts.len() || ts[start
            + spec_method_tokens(m).len()] is Semi || ts[start
            + spec_method_tokens(m).len()] is CloseBrace,
    ensures
        spec_parse_method(ts, start) == Ok::<(LuaMethodV, int), ErrorV>(
            (m, start + spec_method_tokens(m).len()),
        ),
{
    let toks = spec_method_tokens(m);
    let docsT = spec_docs_tokens(m.docstring, 0);
    let mtT = spec_method_type_tokens(m.method_type);
    let clT = spec_closure_tokens(m.closure);
    let testT: Seq<TokenV> = match m.test {
        Some(t) => seq![TokenV::Arrow] + spec_test_tokens(t),
        None => Seq::empty(),
    };
    assert(toks =~= docsT + (mtT + (clT + testT)));
    lemma_subrange_shift(ts, start, docsT, mtT + (clT + testT));
    let q0 = start + docsT.len();
    lemma_subrange_shift(ts, q0, mtT, clT + testT);
    let q1 = q0 + mtT.len();
    lemma_subrange_shift(ts, q1, clT, testT);
    let q2 = q1 + clT.len();

    lemma_method_type_first_token(m.method_type);
    assert(ts[q0] == ts.subrange(q0, q0 + mtT.len() as int)[0]);
    assert(!(ts[q0] is DocString));
    lemma_reparse_docstrings(ts, start, m.docstring, 0);
    assert(m.docstring.skip(0) =~= m.docstring);
    lemma_reparse_method_type(ts, q0, m.method_type);

    match m.test {
        Some(t) => {
            let tt = spec_test_tokens(t);
            assert(testT == seq![TokenV::Arrow] + tt);
            lemma_subrange_shift(ts, q2, seq![TokenV::Arrow], tt);
            assert(ts[q2] == ts.subrange(q2, q2 + 1)[0]);
            assert(ts[q2] == TokenV::Arrow);
            lemma_reparse_closure(ts, q1, m.closure);
            lemma_reparse_test(ts, q2 + 1, t);
            match spec_parse_method(ts, start) {
                Ok((m2, pe)) => {
                    assert(m2 == m);
                    assert(pe == start + toks.len());
                },
                _ => {
                    assert(false);
                },
            }
        },
        None => {
            assert(q2 == start + toks.len());
            lemma_reparse_closure(ts, q1, m.closure);
            assert(!(0 <= q2 < ts.len() && ts[q2] is Arrow));
            match spec_parse_method(ts, start) {
                Ok((m2, pe)) => {
                    assert(m2 == m);
                    assert(pe == start + toks.len());
                },
                _ => {
                    assert(false);
                },
            }
        },
    }
}

proof fn lemma_reparse_methods(ts: Seq<TokenV>, start: int, ms: Seq<LuaMethodV>, i: int)
    requires
        0 <= start,
        0 <= i <= ms.len(),
        forall|j: int| i <= j < ms.len() ==> (#[trigger] ms[j]).wf(),
        start + spec_methods_tokens(ms, i).len() < ts.len(),
        ts.subrange(start, start + spec_methods_tokens(ms, i).len()) == spec_methods_tokens(
            ms,
            i,
        ),
        ts[start + spec_methods_tokens(ms, i).len()] is CloseBrace,
    ensures
        spec_parse_methods(ts, start) == Ok::<(Seq<LuaMethodV>, int), ErrorV>(
            (ms.skip(i), start + spec_methods_tokens(ms, i).len() + 1),
        ),
    decreases ms.len() - i,
{
    let toks = spec_methods_tokens(ms, i);
    if i == ms.len() {
        assert(toks.len() == 0);
        assert(ms.skip(i) =~= Seq::<LuaMethodV>::empty());
    } else {
        let mtoks = spec_method_tokens(ms[i]);
        lemma_method_first_token(ms[i]);
        lemma_method_pos(ts, start);
        if i == ms.len() - 1 {
            assert(toks == mtoks);
            lemma_reparse_method(ts, start, ms[i]);
            assert(ts[start] == ts.subrange(start, start + mtoks.len() as int)[0]);
            assert(!(ts[start] is CloseBrace));
            assert(ms.skip(i) =~= seq![ms[i]]);
        } else {
            let rest = spec_methods_tokens(ms, i + 1);
            assert(toks =~= mtoks + (seq![TokenV::Semi] + rest));
            lemma_subrange_shift(ts, start, mtoks, seq![TokenV::Semi] + rest);
            let q1 = start + mtoks.len();
            lemma_subrange_shift(ts, q1, seq![TokenV::Semi], rest);
            assert(ts[q1] == ts.subrange(q1, q1 + 1)[0]);
            assert(ts[q1] == TokenV::Semi);
            lemma_reparse_method(ts, start, ms[i]);
            assert(ts[start] == ts.subrange(start, start + mtoks.len() as int)[0]);
            assert(!(ts[start] is CloseBrace));
            lemma_reparse_methods(ts, q1 + 1, ms, i + 1);
            assert(seq![ms[i]] + ms.skip(i + 1) =~= ms.skip(i));
        }
    }
}

/// A well-formed tree, serialized, parses back to exactly itself.
pub proof fn lemma_reparse_block(b: UserdataBlockV)
    requires
        b.wf(),
    ensures
        spec_parse_block(spec_block_tokens(b)) == Ok::<UserdataBlockV, ErrorV>(b),
{
    let ts = spec_block_tokens(b);
    let pre: Seq<TokenV> = seq![TokenV::Ident("impl"@), TokenV::OpenBrace];
    let msT = spec_methods_tokens(b.functions, 0);
    let post: Seq<TokenV> = seq![TokenV::CloseBrace];
    assert(ts =~= pre + (msT + post));
    assert(ts.subrange(0, ts.len() as int) =~= ts);
    lemma_subrange_shift(ts, 0, pre, msT + post);
    lemma_subrange_shift(ts, 2, msT, post);
    let q: int = 2 + msT.len() as int;
    assert(ts[0] == ts.subrange(0, 2)[0]);
    assert(ts[1] == ts.subrange(0, 2)[1]);
    assert(ts[0] == TokenV::Ident("impl"@));
    assert(ts[1] == TokenV::OpenBrace);
    assert(ts[q] == ts.subrange(q, q + 1)[0]);
    assert(ts[q] == TokenV::CloseBrace);
    assert(keyword_at(ts, 0, "impl"@));
    lemma_reparse_methods(ts, 2, b.functions, 0);
    assert(b.functions.skip(0) =~= b.functions);
    match spec_parse_block(ts) {
        Ok(b2) => {
            assert(b2 == b);
        },
        _ => {
            assert(false);
        },
    }
}

// ---------------------------------------------------------------------
// The laws of the library.
// ---------------------------------------------------------------------

/// Round-trip stability: a tree obtained by parsing, when serialized and
/// parsed again, is structurally the same tree.  Hence
/// `parse(serialize(parse(input)))` equals `parse(input)` on every input
/// that parses.
pub proof fn lemma_parse_serialize_roundtrip(ts: Seq<TokenV>, b: UserdataBlockV)
    requires
        spec_parse_block(ts) == Ok::<UserdataBlockV, ErrorV>(b),
    ensures
        spec_parse_block(spec_block_tokens(b)) == Ok::<UserdataBlockV, ErrorV>(b),
{
    lemma_parse_block_wf(ts);
    lemma_reparse_block(b);
}

/// A method kind with no keywords and a string-literal discriminator
/// parses with every flag false, the literal as its name, and no meta
/// operator.
pub proof fn lemma_plain_method_type(ts: Seq<TokenV>, pos: int, s: Seq<char>)
    requires
        0 <= pos < ts.len(),
        ts[pos] == TokenV::StrLit(s),
    ensures
        spec_parse_method_type(ts, pos) == Ok::<(LuaMethodTypeV, int), ErrorV>(
            (
                LuaMethodTypeV {
                    is_mut: false,
                    is_static: false,
                    is_meta: false,
                    is_function: false,
                    meta_method: None,
                    method_name: Some(s),
                },
                pos + 1,
            ),
        ),
{
}

/// A parenthesized discriminator makes a meta method-type, whatever the
/// keyword flags before it: the operator path is recorded and no method
/// name is set.
pub proof fn lemma_parenthesized_discriminator(ts: Seq<TokenV>, pos: int)
    requires
        0 <= pos,
    ensures
        ({
            let p1 = if keyword_at(ts, pos, "static"@) {
                pos + 1
            } else {
                pos
            };
            let p2 = if keyword_at(ts, p1, "mut"@) {
                p1 + 1
            } else {
                p1
            };
            let p3 = if keyword_at(ts, p2, "fn"@) {
                p2 + 1
            } else {
                p2
            };
            (0 <= p3 < ts.len() && ts[p3] is OpenParen) ==> (spec_parse_method_type(ts, pos)
                matches Ok((mt, p)) ==> mt.is_meta && mt.meta_method is Some && mt.method_name
                is None)
        }),
{
}

/// Every successfully parsed method kind carries exactly one
/// discriminator: the meta-operator path when `is_meta`, the name
/// literal otherwise, never both and never neither.
pub proof fn lemma_discriminator_exclusive(ts: Seq<TokenV>, pos: int)
    requires
        0 <= pos,
    ensures
        spec_parse_method_type(ts, pos) matches Ok((mt, p)) ==> mt.wf(),
{
    lemma_parse_method_type_wf(ts, pos);
}

/// The naming table of the code generator: the eight flag combinations
/// and the registration-call name each one produces.
pub proof fn lemma_naming_table()
    ensures
        spec_call_name(false, false, false) == "add_method"@,
        spec_call_name(false, false, true) == "add_method_mut"@,
        spec_call_name(false, true, false) == "add_function"@,
        spec_call_name(false, true, true) == "add_function_mut"@,
        spec_call_name(true, false, false) == "add_meta_method"@,
        spec_call_name(true, false, true) == "add_meta_method_mut"@,
        spec_call_name(true, true, false) == "add_meta_function"@,
        spec_call_name(true, true, true) == "add_meta_function_mut"@,
{
    reveal_strlit("add");
    reveal_strlit("_meta");
    reveal_strlit("_function");
    reveal_strlit("_method");
    reveal_strlit("_mut");
    reveal_strlit("add_method");
    reveal_strlit("add_method_mut");
    reveal_strlit("add_function");
    reveal_strlit("add_function_mut");
    reveal_strlit("add_meta_method");
    reveal_strlit("add_meta_method_mut");
    reveal_strlit("add_meta_function");
    reveal_strlit("add_meta_function_mut");
    assert(spec_call_name(false, false, false) =~= "add_method"@);
    assert(spec_call_name(false, false, true) =~= "add_method_mut"@);
    assert(spec_call_name(false, true, false) =~= "add_function"@);
    assert(spec_call_name(false, true, true) =~= "add_function_mut"@);
    assert(spec_call_name(true, false, false) =~= "add_meta_method"@);
    assert(spec_call_name(true, false, true) =~= "add_meta_method_mut"@);
    assert(spec_call_name(true, true, false) =~= "add_meta_function"@);
    assert(spec_call_name(true, true, true) =~= "add_meta_function_mut"@);
}

} // verus!
