//! Byte and text helpers for header values: trimming, ASCII case folding
//! and comma-separated token lists.

use vstd::prelude::*;
use vstd::utf8::{decode_utf8, valid_utf8};

verus! {

/// Bytes trimmed off header values before they are compared: CR, LF, space
/// and tab.
pub open spec fn is_trim_byte(b: u8) -> bool {
    b == 13u8 || b == 10u8 || b == 32u8 || b == 9u8
}

/// `s` without its leading trim bytes.
pub open spec fn trim_bytes_start(s: Seq<u8>) -> Seq<u8>
    decreases s.len(),
{
    if s.len() > 0 && is_trim_byte(s[0]) {
        trim_bytes_start(s.drop_first())
    } else {
        s
    }
}

/// `s` without its trailing trim bytes.
pub open spec fn trim_bytes_end(s: Seq<u8>) -> Seq<u8>
    decreases s.len(),
{
    if s.len() > 0 && is_trim_byte(s.last()) {
        trim_bytes_end(s.drop_last())
    } else {
        s
    }
}

/// `s` without surrounding CR, LF, space and tab.
pub open spec fn trim_bytes(s: Seq<u8>) -> Seq<u8> {
    trim_bytes_end(trim_bytes_start(s))
}

/// ASCII upper-case letters mapped to lower case; every other byte kept.
pub open spec fn fold_byte(b: u8) -> u8 {
    if 65u8 <= b <= 90u8 {
        (b + 32) as u8
    } else {
        b
    }
}

/// `a` equals `b` when ASCII letters are compared without regard to case.
pub open spec fn same_ignoring_case(a: Seq<u8>, b: Seq<u8>) -> bool {
    &&& a.len() == b.len()
    &&& forall|i: int| 0 <= i < a.len() ==> fold_byte(#[trigger] a[i]) == fold_byte(b[i])
}

fn is_trim_byte_exec(b: u8) -> (r: bool)
    ensures
        r == is_trim_byte(b),
{
    b == 13u8 || b == 10u8 || b == 32u8 || b == 9u8
}

/// Copy of `x` without surrounding CR, LF, space and tab.
pub fn bytes_trim(x: &[u8]) -> (r: Vec<u8>)
    ensures
        r@ == trim_bytes(x@),
{
    let n = x.len();
    let mut lo: usize = 0;
    assert(x@.subrange(0, n as int) =~= x@);
    while lo < n && is_trim_byte_exec(x[lo])
        invariant
            lo <= n,
            n == x@.len(),
            trim_bytes_start(x@.subrange(lo as int, n as int)) == trim_bytes_start(x@),
        decreases n - lo,
    {
        assert(x@.subrange(lo as int, n as int).drop_first() =~= x@.subrange(lo + 1, n as int));
        lo = lo + 1;
    }
    assert(trim_bytes_start(x@) == x@.subrange(lo as int, n as int)) by {
        if lo == n {
            assert(x@.subrange(lo as int, n as int).len() == 0);
        }
    }
    let mut hi: usize = n;
    while hi > lo && is_trim_byte_exec(x[hi - 1])
        invariant
            lo <= hi <= n,
            n == x@.len(),
            trim_bytes_start(x@) == x@.subrange(lo as int, n as int),
            trim_bytes_end(x@.subrange(lo as int, hi as int)) == trim_bytes(x@),
        decreases hi,
    {
        assert(x@.subrange(lo as int, hi as int).drop_last() =~= x@.subrange(lo as int, hi - 1));
        hi = hi - 1;
    }
    let mut r: Vec<u8> = Vec::new();
    let mut k: usize = lo;
    while k < hi
        invariant
            lo <= k <= hi <= n,
            n == x@.len(),
            r@ == x@.subrange(lo as int, k as int),
        decreases hi - k,
    {
        r.push(x[k]);
        assert(r@ =~= x@.subrange(lo as int, k + 1));
        k = k + 1;
    }
    r
}

fn fold_byte_exec(b: u8) -> (r: u8)
    ensures
        r == fold_byte(b),
{
    if 65u8 <= b && b <= 90u8 {
        b + 32
    } else {
        b
    }
}

/// Whether `a` and `b` are equal when ASCII letters are compared without
/// regard to case.
pub fn eq_ignore_case(a: &[u8], b: &[u8]) -> (r: bool)
    ensures
        r == same_ignoring_case(a@, b@),
{
    if a.len() != b.len() {
        return false;
    }
    let mut i: usize = 0;
    while i < a.len()
        invariant
            a@.len() == b@.len(),
            i <= a@.len(),
            forall|j: int| 0 <= j < i ==> fold_byte(#[trigger] a@[j]) == fold_byte(b@[j]),
        decreases a@.len() - i,
    {
        if fold_byte_exec(a[i]) != fold_byte_exec(b[i]) {
            return false;
        }
        i = i + 1;
    }
    true
}


/// Unicode `White_Space` characters, those that `char::is_whitespace`
/// accepts.
pub open spec fn is_white_space(c: char) -> bool {
    let u = c as u32;
    ||| 9 <= u <= 13
    ||| u == 32
    ||| u == 0x85
    ||| u == 0xA0
    ||| u == 0x1680
    ||| 0x2000 <= u <= 0x200A
    ||| u == 0x2028
    ||| u == 0x2029
    ||| u == 0x202F
    ||| u == 0x205F
    ||| u == 0x3000
}

/// Whether `c` is Unicode white space.
fn is_white_space_exec(c: char) -> (r: bool)
    ensures
        r == is_white_space(c),
{
    let u = c as u32;
    (9 <= u && u <= 13) || u == 32 || u == 0x85 || u == 0xA0 || u == 0x1680 || (0x2000 <= u
        && u <= 0x200A) || u == 0x2028 || u == 0x2029 || u == 0x202F || u == 0x205F || u == 0x3000
}

/// `s` without its leading white space.
pub open spec fn trim_chars_start(s: Seq<char>) -> Seq<char>
    decreases s.len(),
{
    if s.len() > 0 && is_white_space(s[0]) {
        trim_chars_start(s.drop_first())
    } else {
        s
    }
}

/// `s` without its trailing white space.
pub open spec fn trim_chars_end(s: Seq<char>) -> Seq<char>
    decreases s.len(),
{
    if s.len() > 0 && is_white_space(s.last()) {
        trim_chars_end(s.drop_last())
    } else {
        s
    }
}

/// `s` without surrounding white space, as `str::trim` gives it.
pub open spec fn trim_chars(s: Seq<char>) -> Seq<char> {
    trim_chars_end(trim_chars_start(s))
}

/// The pieces of `s` between commas, in order; `s` without a comma is one
/// piece, and every comma adds one.
pub open spec fn split_commas(s: Seq<char>) -> Seq<Seq<char>>
    decreases s.len(),
{
    if s.len() == 0 {
        seq![Seq::empty()]
    } else {
        let pieces = split_commas(s.drop_last());
        if s.last() == ',' {
            pieces.push(Seq::empty())
        } else {
            pieces.update(pieces.len() - 1, pieces.last().push(s.last()))
        }
    }
}

/// The trimmed pieces that are not empty, in order.
pub open spec fn non_empty_trimmed(pieces: Seq<Seq<char>>) -> Seq<Seq<char>>
    decreases pieces.len(),
{
    if pieces.len() == 0 {
        Seq::empty()
    } else {
        let kept = non_empty_trimmed(pieces.drop_last());
        let t = trim_chars(pieces.last());
        if t.len() > 0 {
            kept.push(t)
        } else {
            kept
        }
    }
}

/// The tokens of a comma-separated list: each piece between commas,
/// trimmed of white space, empty ones left out, in the order of the text.
pub open spec fn tokens_of(s: Seq<char>) -> Seq<Seq<char>> {
    non_empty_trimmed(split_commas(s))
}

proof fn lemma_trim_start_shape(s: Seq<char>)
    ensures
        exists|k: int| 0 <= k <= s.len() && trim_chars_start(s) == s.subrange(k, s.len() as int),
        trim_chars_start(s).len() == 0 || !is_white_space(trim_chars_start(s)[0]),
    decreases s.len(),
{
    if s.len() > 0 && is_white_space(s[0]) {
        lemma_trim_start_shape(s.drop_first());
        let k = choose|k: int|
            0 <= k <= s.drop_first().len() && trim_chars_start(s.drop_first())
                == s.drop_first().subrange(k, s.drop_first().len() as int);
        assert(s.drop_first().subrange(k, s.drop_first().len() as int) =~= s.subrange(
            k + 1,
            s.len() as int,
        ));
    } else {
        assert(s.subrange(0, s.len() as int) =~= s);
    }
}

proof fn lemma_trim_end_shape(s: Seq<char>)
    ensures
        exists|k: int| 0 <= k <= s.len() && trim_chars_end(s) == s.subrange(0, k),
        trim_chars_end(s).len() == 0 || !is_white_space(trim_chars_end(s).last()),
    decreases s.len(),
{
    if s.len() > 0 && is_white_space(s.last()) {
        lemma_trim_end_shape(s.drop_last());
        let k = choose|k: int|
            0 <= k <= s.drop_last().len() && trim_chars_end(s.drop_last())
                == s.drop_last().subrange(0, k);
        assert(s.drop_last().subrange(0, k) =~= s.subrange(0, k));
    } else {
        assert(s.subrange(0, s.len() as int) =~= s);
    }
}

/// A trimmed text neither starts nor ends with white space.
pub proof fn lemma_trim_chars_trimmed(s: Seq<char>)
    ensures
        trim_chars(s).len() > 0 ==> !is_white_space(trim_chars(s)[0]) && !is_white_space(
            trim_chars(s).last(),
        ),
{
    let u = trim_chars_start(s);
    lemma_trim_start_shape(s);
    lemma_trim_end_shape(u);
    if trim_chars(s).len() > 0 {
        let k = choose|k: int| 0 <= k <= u.len() && trim_chars_end(u) == u.subrange(0, k);
        assert(trim_chars(s)[0] == u[0]);
    }
}

/// Every token of a comma-separated list is non-empty and has no white space
/// at either end.
pub proof fn lemma_tokens_non_empty_trimmed(s: Seq<char>)
    ensures
        forall|i: int|
            0 <= i < tokens_of(s).len() ==> {
                let t = #[trigger] tokens_of(s)[i];
                t.len() > 0 && !is_white_space(t[0]) && !is_white_space(t.last())
            },
{
    lemma_kept_pieces_trimmed(split_commas(s));
}

proof fn lemma_kept_pieces_trimmed(pieces: Seq<Seq<char>>)
    ensures
        forall|i: int|
            0 <= i < non_empty_trimmed(pieces).len() ==> {
                let t = #[trigger] non_empty_trimmed(pieces)[i];
                t.len() > 0 && !is_white_space(t[0]) && !is_white_space(t.last())
            },
    decreases pieces.len(),
{
    if pieces.len() > 0 {
        let kept = non_empty_trimmed(pieces.drop_last());
        let all = non_empty_trimmed(pieces);
        lemma_kept_pieces_trimmed(pieces.drop_last());
        lemma_trim_chars_trimmed(pieces.last());
        assert forall|i: int| 0 <= i < all.len() implies {
            let t = #[trigger] all[i];
            t.len() > 0 && !is_white_space(t[0]) && !is_white_space(t.last())
        } by {
            if i < kept.len() {
                assert(all[i] == kept[i]);
            }
        }
    }
}

/// Bounds of `v[start..end]` without its surrounding white space.
fn trim_range(v: &Vec<char>, start: usize, end: usize) -> (r: (usize, usize))
    requires
        start <= end <= v@.len(),
    ensures
        start <= r.0 <= r.1 <= end,
        v@.subrange(r.0 as int, r.1 as int) == trim_chars(v@.subrange(start as int, end as int)),
{
    let mut lo: usize = start;
    while lo < end && is_white_space_exec(v[lo])
        invariant
            start <= lo <= end <= v@.len(),
            trim_chars_start(v@.subrange(lo as int, end as int)) == trim_chars_start(
                v@.subrange(start as int, end as int),
            ),
        decreases end - lo,
    {
        assert(v@.subrange(lo as int, end as int).drop_first() =~= v@.subrange(lo + 1, end as int));
        lo = lo + 1;
    }
    let ghost piece = v@.subrange(start as int, end as int);
    assert(trim_chars_start(piece) == v@.subrange(lo as int, end as int)) by {
        if lo == end {
            assert(v@.subrange(lo as int, end as int).len() == 0);
        }
    }
    let mut hi: usize = end;
    while hi > lo && is_white_space_exec(v[hi - 1])
        invariant
            start <= lo <= hi <= end <= v@.len(),
            piece == v@.subrange(start as int, end as int),
            trim_chars_start(piece) == v@.subrange(lo as int, end as int),
            trim_chars_end(v@.subrange(lo as int, hi as int)) == trim_chars(piece),
        decreases hi,
    {
        assert(v@.subrange(lo as int, hi as int).drop_last() =~= v@.subrange(lo as int, hi - 1));
        hi = hi - 1;
    }
    (lo, hi)
}

/// Relies on `String::push`: appends one character.
#[verifier::external_body]
fn push_char(s: &mut String, c: char)
    ensures
        final(s)@ == old(s)@.push(c),
{
    s.push(c);
}

/// The characters `v[lo..hi]` as a string.
fn string_of_range(v: &Vec<char>, lo: usize, hi: usize) -> (r: String)
    requires
        lo <= hi <= v@.len(),
    ensures
        r@ == v@.subrange(lo as int, hi as int),
{
    let mut r = String::new();
    let mut k: usize = lo;
    while k < hi
        invariant
            lo <= k <= hi <= v@.len(),
            r@ == v@.subrange(lo as int, k as int),
        decreases hi - k,
    {
        push_char(&mut r, v[k]);
        assert(r@ =~= v@.subrange(lo as int, k + 1));
        k = k + 1;
    }
    r
}

/// The characters of `text`, in order.
fn chars_of(text: &str) -> (r: Vec<char>)
    ensures
        r@ == text@,
{
    broadcast use vstd::string::group_string_axioms;

    let mut r: Vec<char> = Vec::new();
    for c in it: text.chars()
        invariant
            r@ == it.seq().take(it.index() as int),
    {
        r.push(c);
        assert(r@ =~= it.seq().take(it.index() + 1));
    }
    assert(r@ =~= text@);
    r
}

/// The texts of a list of strings.
pub open spec fn texts(v: Seq<String>) -> Seq<Seq<char>> {
    v.map_values(|t: String| t@)
}

/// Splits a comma-separated list into its tokens: pieces between commas,
/// trimmed of white space, empty ones dropped, order and duplicates kept.
pub fn token_list(text: &str) -> (r: Vec<String>)
    ensures
        texts(r@) == tokens_of(text@),
{
    let v = chars_of(text);
    let n = v.len();
    let mut out: Vec<String> = Vec::new();
    let mut start: usize = 0;
    let mut i: usize = 0;
    let ghost mut done: Seq<Seq<char>> = Seq::empty();
    assert(v@.take(0) =~= Seq::<char>::empty());
    while i < n
        invariant
            n == v@.len(),
            start <= i <= n,
            split_commas(v@.take(i as int)) == done.push(v@.subrange(start as int, i as int)),
            texts(out@) == non_empty_trimmed(done),
        decreases n - i,
    {
        let ghost prev = v@.take(i as int);
        assert(v@.take(i + 1).drop_last() =~= prev);
        if v[i] == ',' {
            let (lo, hi) = trim_range(&v, start, i);
            let ghost old_out = texts(out@);
            proof {
                let old_done = done;
                done = done.push(v@.subrange(start as int, i as int));
                assert(done.drop_last() =~= old_done);
            }
            if lo < hi {
                let t = string_of_range(&v, lo, hi);
                out.push(t);
                assert(texts(out@) =~= old_out.push(t@));
            }
            assert(texts(out@) =~= non_empty_trimmed(done));
            start = i + 1;
            assert(v@.subrange(start as int, i + 1) =~= Seq::<char>::empty());
        } else {
            assert(v@.subrange(start as int, i + 1) =~= v@.subrange(start as int, i as int).push(v[i as int]));
        }
        i = i + 1;
    }
    let (lo, hi) = trim_range(&v, start, n);
    let ghost last = v@.subrange(start as int, n as int);
    if lo < hi {
        let t = string_of_range(&v, lo, hi);
        out.push(t);
    }
    assert(v@.take(n as int) =~= text@);
    assert(done.push(last).drop_last() =~= done);
    assert(texts(out@) =~= tokens_of(text@));
    out
}

/// Relies on `std::str::from_utf8`: it succeeds exactly on well-formed
/// UTF-8, and the text it gives is the one those bytes encode.
#[verifier::external_body]
pub(crate) fn decode_text(bytes: &[u8]) -> (r: Option<&str>)
    ensures
        r is Some <==> valid_utf8(bytes@),
        r matches Some(t) ==> t@ == decode_utf8(bytes@),
{
    std::str::from_utf8(bytes).ok()
}

/// ASCII upper-case letters mapped to lower case, as code points.
pub open spec fn fold_char(c: char) -> u32 {
    if 'A' <= c <= 'Z' {
        (c as u32 + 32) as u32
    } else {
        c as u32
    }
}

/// The word `upgrade`.
pub open spec fn upgrade_word() -> Seq<u8> {
    seq![117u8, 112u8, 103u8, 114u8, 97u8, 100u8, 101u8]
}

/// `t` is the word `upgrade`, ASCII letters compared without regard to case.
pub open spec fn is_upgrade_token(t: Seq<char>) -> bool {
    &&& t.len() == upgrade_word().len()
    &&& forall|i: int| 0 <= i < t.len() ==> fold_char(#[trigger] t[i]) == upgrade_word()[i] as u32
}

/// Some token of the comma-separated list `s` is `upgrade`.
pub open spec fn lists_upgrade(s: Seq<char>) -> bool {
    exists|i: int| 0 <= i < tokens_of(s).len() && is_upgrade_token(#[trigger] tokens_of(s)[i])
}

fn is_upgrade_chars(t: &Vec<char>) -> (r: bool)
    ensures
        r == is_upgrade_token(t@),
{
    let word: [u8; 7] = [117u8, 112u8, 103u8, 114u8, 97u8, 100u8, 101u8];
    assert(word@ == upgrade_word());
    if t.len() != 7 {
        return false;
    }
    let mut i: usize = 0;
    while i < 7
        invariant
            t@.len() == 7,
            word@ == upgrade_word(),
            i <= 7,
            forall|j: int| 0 <= j < i ==> fold_char(#[trigger] t@[j]) == upgrade_word()[j] as u32,
        decreases 7 - i,
    {
        let c = t[i];
        let folded: u32 = if 'A' <= c && c <= 'Z' {
            c as u32 + 32
        } else {
            c as u32
        };
        if folded != word[i] as u32 {
            return false;
        }
        i = i + 1;
    }
    true
}

/// Whether the comma-separated list `text` holds the token `upgrade`, in
/// any case and with any surrounding white space.
pub fn has_upgrade_token(text: &str) -> (r: bool)
    ensures
        r == lists_upgrade(text@),
{
    let tokens = token_list(text);
    let ghost ts = texts(tokens@);
    let mut j: usize = 0;
    while j < tokens.len()
        invariant
            ts == texts(tokens@),
            ts == tokens_of(text@),
            j <= tokens@.len(),
            forall|k: int| 0 <= k < j ==> !is_upgrade_token(#[trigger] ts[k]),
        decreases tokens@.len() - j,
    {
        let cs = chars_of(tokens[j].as_str());
        if is_upgrade_chars(&cs) {
            assert(is_upgrade_token(ts[j as int]));
            return true;
        }
        j = j + 1;
    }
    false
}

} // verus!
