use vstd::prelude::*;

use crate::scanner::{
    end_token, lemma_step_advances, line_run, next_is, scan_errors, scan_from, scan_tokens, step,
    string_run, LexErrorKind,
};
use crate::token::{KindModel, TokenKind};

verus! {

/// Whether the token kind is the end marker.
pub open spec fn is_end_marker(k: KindModel) -> bool {
    k == KindModel::Marker(TokenKind::EndOfInput)
}

proof fn lemma_no_end_marker_from(s: Seq<char>, i: int, line: nat)
    ensures
        forall|k: int|
            0 <= k < scan_from(s, i, line).tokens.len() ==> !is_end_marker(
                #[trigger] scan_from(s, i, line).tokens[k].kind,
            ),
    decreases s.len() - i,
{
    if 0 <= i < s.len() {
        let st = step(s, i, line);
        lemma_step_advances(s, i, line);
        lemma_no_end_marker_from(s, st.next, st.line);
        let rest = scan_from(s, st.next, st.line);
        let all = scan_from(s, i, line).tokens;
        assert forall|k: int| 0 <= k < all.len() implies !is_end_marker(#[trigger] all[k].kind) by {
            if st.token is Some && k == 0 {
            } else if st.token is Some {
                assert(all[k] == rest.tokens[k - 1]);
            } else {
                assert(all[k] == rest.tokens[k]);
            }
        }
    }
}

/// The scan of any text ends with exactly one end marker: the last token is
/// the end marker, on the final line, and no token before it is one.
pub proof fn lemma_single_end_marker(s: Seq<char>)
    ensures
        scan_tokens(s).len() >= 1,
        scan_tokens(s).last() == end_token(scan_from(s, 0, 1).line),
        forall|k: int|
            0 <= k < scan_tokens(s).len() - 1 ==> !is_end_marker(
                #[trigger] scan_tokens(s)[k].kind,
            ),
{
    lemma_no_end_marker_from(s, 0, 1);
    let r = scan_from(s, 0, 1);
    assert forall|k: int| 0 <= k < scan_tokens(s).len() - 1 implies !is_end_marker(
        #[trigger] scan_tokens(s)[k].kind,
    ) by {
        assert(scan_tokens(s)[k] == r.tokens[k]);
    }
}

/// Whether `p` is one blank character: a space, carriage return, tab or newline.
pub open spec fn is_blank(p: Seq<char>) -> bool {
    p.len() == 1 && (p[0] == ' ' || p[0] == '\r' || p[0] == '\t' || p[0] == '\n')
}

/// Whether `p` is a line comment: two slashes and the rest of the line, the
/// newline excluded.
pub open spec fn is_comment(p: Seq<char>) -> bool {
    &&& p.len() >= 2
    &&& p[0] == '/'
    &&& p[1] == '/'
    &&& !p.contains('\n')
}

/// Nothing is absorbed silently. Each piece of text that the scanner consumes
/// at once (from position `i` up to where the next one starts) gives exactly
/// one token whose lexeme is that piece, or exactly one error report, or is
/// blank text or a comment. A reported piece is either one unexpected
/// character, or a string that runs to the end of the text without its
/// closing quote.
pub proof fn lemma_nothing_absorbed_silently(s: Seq<char>, i: int, line: nat)
    requires
        0 <= i < s.len(),
    ensures
        ({
            let st = step(s, i, line);
            let piece = s.subrange(i, st.next);
            &&& i < st.next <= s.len()
            &&& !(st.token is Some && st.error is Some)
            &&& st.token is Some ==> st.token->0.lexeme == piece
            &&& st.error is Some ==> {
                ||| piece == seq![s[i]] && st.error->0.kind == LexErrorKind::UnexpectedCharacter(
                    s[i],
                )
                ||| st.error->0.kind == LexErrorKind::UnterminatedString && s[i] == '"'
                    && st.next == s.len() && !piece.drop_first().contains('"')
            }
            &&& (st.token is None && st.error is None) ==> is_blank(piece) || is_comment(piece)
        }),
{
    lemma_step_advances(s, i, line);
    let st = step(s, i, line);
    let piece = s.subrange(i, st.next);
    let c = s[i];
    if c == '/' && next_is(s, i, '/') {
        lemma_line_run_no_newline(s, i + 1);
        if piece.contains('\n') {
            let k = choose|k: int| 0 <= k < piece.len() && piece[k] == '\n';
            assert(s.subrange(i + 1, st.next)[k - 1] == '\n');
        }
    }
    if c == '"' {
        lemma_string_run_no_quote(s, i + 1);
        assert(piece.drop_first() =~= s.subrange(i + 1, st.next));
    }
    if st.next == i + 1 {
        assert(piece =~= seq![s[i]]);
    }
}

proof fn lemma_line_run_no_newline(s: Seq<char>, j: int)
    requires
        0 <= j <= s.len(),
    ensures
        j + line_run(s, j) <= s.len(),
        !s.subrange(j, j + line_run(s, j)).contains('\n'),
    decreases s.len() - j,
{
    let e = j + line_run(s, j);
    if j < s.len() && s[j] != '\n' {
        lemma_line_run_no_newline(s, j + 1);
        if s.subrange(j, e).contains('\n') {
            let k = choose|k: int| 0 <= k < s.subrange(j, e).len() && s.subrange(j, e)[k] == '\n';
            assert(k != 0);
            assert(s.subrange(j + 1, e)[k - 1] == '\n');
        }
    } else {
        assert(s.subrange(j, e).len() == 0);
    }
}

proof fn lemma_string_run_no_quote(s: Seq<char>, j: int)
    requires
        0 <= j <= s.len(),
    ensures
        j + string_run(s, j) <= s.len(),
        !s.subrange(j, j + string_run(s, j)).contains('"'),
    decreases s.len() - j,
{
    let e = j + string_run(s, j);
    if j < s.len() && s[j] != '"' {
        lemma_string_run_no_quote(s, j + 1);
        if s.subrange(j, e).contains('"') {
            let k = choose|k: int| 0 <= k < s.subrange(j, e).len() && s.subrange(j, e)[k] == '"';
            assert(k != 0);
            assert(s.subrange(j + 1, e)[k - 1] == '"');
        }
    } else {
        assert(s.subrange(j, e).len() == 0);
    }
}

/// The pieces of text that the scan consumes one at a time, from position
/// `i` on, starting on line `line`.
pub open spec fn pieces(s: Seq<char>, i: int, line: nat) -> Seq<Seq<char>>
    decreases s.len() - i,
    via pieces_decreases
{
    if 0 <= i < s.len() {
        let st = step(s, i, line);
        seq![s.subrange(i, st.next)] + pieces(s, st.next, st.line)
    } else {
        Seq::empty()
    }
}

#[via_fn]
proof fn pieces_decreases(s: Seq<char>, i: int, line: nat) {
    if 0 <= i < s.len() {
        lemma_step_advances(s, i, line);
    }
}

/// How many of the pieces are neither blank nor a comment.
pub open spec fn count_loud(ps: Seq<Seq<char>>) -> nat
    decreases ps.len(),
{
    if ps.len() == 0 {
        0
    } else {
        count_loud(ps.drop_first()) + if is_blank(ps[0]) || is_comment(ps[0]) {
            0nat
        } else {
            1nat
        }
    }
}

proof fn lemma_accounted_from(s: Seq<char>, i: int, line: nat)
    requires
        0 <= i <= s.len(),
    ensures
        pieces(s, i, line).flatten() == s.subrange(i, s.len() as int),
        scan_from(s, i, line).tokens.len() + scan_from(s, i, line).errors.len() == count_loud(
            pieces(s, i, line),
        ),
    decreases s.len() - i,
{
    if i < s.len() {
        let st = step(s, i, line);
        let piece = s.subrange(i, st.next);
        lemma_nothing_absorbed_silently(s, i, line);
        lemma_accounted_from(s, st.next, st.line);
        let ps = pieces(s, i, line);
        assert(ps.drop_first() =~= pieces(s, st.next, st.line));
        assert(ps[0] == piece);
        assert(s.subrange(i, s.len() as int) =~= piece + s.subrange(st.next, s.len() as int));
        if st.token is Some || st.error is Some {
            // a piece that gives a token or an error is neither blank nor a comment
            let c = s[i];
            assert(piece[0] == c);
            if is_comment(piece) {
                assert(piece[1] == s[i + 1]);
            }
        }
    } else {
        assert(s.subrange(i, s.len() as int) =~= Seq::<char>::empty());
    }
}

/// Every character is accounted for. The scan cuts the text into pieces
/// which, put back together in order, give the text again; and the tokens
/// (the end marker aside) and the error reports together are exactly as many
/// as the pieces that are neither blank nor a comment.
pub proof fn lemma_every_character_accounted(s: Seq<char>)
    ensures
        pieces(s, 0, 1).flatten() == s,
        scan_tokens(s).len() - 1 + scan_errors(s).len() == count_loud(
            pieces(s, 0, 1),
        ),
{
    lemma_accounted_from(s, 0, 1);
    assert(s.subrange(0, s.len() as int) =~= s);
}

/// Scanning is a function of the text alone: two scans of equal texts, each
/// with a fresh scanner, give the same tokens and the same errors.
pub proof fn lemma_scan_deterministic(a: Seq<char>, b: Seq<char>)
    requires
        a == b,
    ensures
        scan_tokens(a) == scan_tokens(b),
        scan_errors(a) == scan_errors(b),
{
}

} // verus!
