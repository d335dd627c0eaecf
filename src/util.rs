//! Rendering of build ids as hex text, and reading of URL lists.
use vstd::prelude::*;

use crate::text::trim_str;
use crate::text::trimmed;

verus! {

/// The lower-case hex digits, by value.
pub open spec fn hex_digit(n: int) -> char {
    seq!['0', '1', '2', '3', '4', '5', '6', '7', '8', '9', 'a', 'b', 'c', 'd', 'e', 'f'][n]
}

/// Two lower-case hex digits for each byte, high nibble first, in byte order.
pub open spec fn hex_of(bytes: Seq<u8>) -> Seq<char>
    decreases bytes.len(),
{
    if bytes.len() == 0 {
        Seq::empty()
    } else {
        let last = bytes.last() as int;
        hex_of(bytes.drop_last()) + seq![hex_digit(last / 16), hex_digit(last % 16)]
    }
}

/// Whether `c` is one of `0-9` or `a-f`.
pub open spec fn is_lower_hex_digit(c: char) -> bool {
    ('0' <= c <= '9') || ('a' <= c <= 'f')
}

/// Hex text has two characters per byte, each a lower-case hex digit, and
/// equal byte sequences always render to equal text.
pub proof fn lemma_hex_shape(bytes: Seq<u8>, other: Seq<u8>)
    ensures
        hex_of(bytes).len() == 2 * bytes.len(),
        forall|i: int| 0 <= i < hex_of(bytes).len() ==> is_lower_hex_digit(#[trigger] hex_of(bytes)[i]),
        bytes == other ==> hex_of(bytes) == hex_of(other),
    decreases bytes.len(),
{
    if bytes.len() > 0 {
        lemma_hex_shape(bytes.drop_last(), other);
        let last = bytes.last() as int;
        assert(0 <= last / 16 < 16 && 0 <= last % 16 < 16);
        let digits = seq!['0', '1', '2', '3', '4', '5', '6', '7', '8', '9', 'a', 'b', 'c', 'd', 'e', 'f'];
        assert(forall|k: int| 0 <= k < 16 ==> is_lower_hex_digit(#[trigger] digits[k]));
        let init = hex_of(bytes.drop_last());
        let tail = seq![hex_digit(last / 16), hex_digit(last % 16)];
        assert forall|i: int| 0 <= i < hex_of(bytes).len() implies is_lower_hex_digit(#[trigger] hex_of(bytes)[i]) by {
            if i < init.len() {
                assert(hex_of(bytes)[i] == init[i]);
            } else {
                assert(hex_of(bytes)[i] == tail[i - init.len()]);
            }
        }
    }
}

const HEX_DIGITS: [char; 16] = ['0', '1', '2', '3', '4', '5', '6', '7', '8', '9', 'a', 'b', 'c', 'd', 'e', 'f'];

/// Renders `build_id` as lower-case hex, two digits per byte.
pub fn format_build_id(build_id: &[u8]) -> (r: String)
    ensures
        r@ == hex_of(build_id@),
{
    let mut s = String::new();
    let n = build_id.len();
    for i in 0..n
        invariant
            n == build_id@.len(),
            s@ == hex_of(build_id@.subrange(0, i as int)),
    {
        let b = build_id[i];
        s.push(HEX_DIGITS[(b / 16) as usize]);
        s.push(HEX_DIGITS[(b % 16) as usize]);
        assert(build_id@.subrange(0, i + 1).drop_last() == build_id@.subrange(0, i as int));
    }
    assert(build_id@.subrange(0, n as int) == build_id@);
    s
}

/// Whether `c` separates the entries of a URL list.
pub open spec fn is_separator(c: char) -> bool {
    c == ',' || c == ' '
}

/// The pieces of `s` between separators, in order, empty ones included.
pub open spec fn fields(s: Seq<char>) -> Seq<Seq<char>>
    decreases s.len(),
{
    if s.len() == 0 {
        seq![Seq::empty()]
    } else {
        let init = fields(s.drop_last());
        if is_separator(s.last()) {
            init.push(Seq::empty())
        } else {
            init.update(init.len() - 1, init.last().push(s.last()))
        }
    }
}

/// The given pieces trimmed of white space, with the empty ones dropped.
pub open spec fn kept(pieces: Seq<Seq<char>>) -> Seq<Seq<char>> {
    pieces.map_values(|f: Seq<char>| trimmed(f)).filter(|t: Seq<char>| t.len() > 0)
}

/// The entries of a URL list: the pieces between commas and spaces, trimmed,
/// with the empty ones dropped.
pub open spec fn url_entries(s: Seq<char>) -> Seq<Seq<char>> {
    kept(fields(s))
}

proof fn lemma_fields_len(s: Seq<char>)
    ensures
        fields(s).len() >= 1,
    decreases s.len(),
{
    if s.len() > 0 {
        lemma_fields_len(s.drop_last());
    }
}

proof fn lemma_kept_push(pieces: Seq<Seq<char>>, f: Seq<char>)
    ensures
        kept(pieces.push(f)) == if trimmed(f).len() > 0 {
            kept(pieces).push(trimmed(f))
        } else {
            kept(pieces)
        },
{
    let g = |f: Seq<char>| trimmed(f);
    let p = |t: Seq<char>| t.len() > 0;
    assert(pieces.push(f).map_values(g) == pieces.map_values(g).push(trimmed(f)));
    reveal(Seq::filter);
    assert(pieces.map_values(g).push(trimmed(f)).drop_last() == pieces.map_values(g));
}

/// Splits a URL list at commas and spaces, trims each entry and drops the
/// empty ones.
pub fn split_env_var_contents(urls_str: &str) -> (r: Vec<&str>)
    ensures
        r@.map_values(|t: &str| t@) == url_entries(urls_str@),
{
    let n = urls_str.unicode_len();
    let mut out: Vec<&str> = Vec::new();
    let mut start: usize = 0;
    let mut i: usize = 0;
    proof {
        lemma_fields_len(urls_str@.subrange(0, 0));
        assert(urls_str@.subrange(0, 0) == Seq::<char>::empty());
        assert(out@.map_values(|t: &str| t@) == Seq::<Seq<char>>::empty());
        reveal(Seq::filter);
    }
    while i < n
        invariant
            n == urls_str@.len(),
            start <= i <= n,
            fields(urls_str@.subrange(0, i as int)).len() >= 1,
            fields(urls_str@.subrange(0, i as int)).last() == urls_str@.subrange(
                start as int,
                i as int,
            ),
            out@.map_values(|t: &str| t@) == kept(
                fields(urls_str@.subrange(0, i as int)).drop_last(),
            ),
        decreases n - i,
    {
        let c = urls_str.get_char(i);
        let ghost before = fields(urls_str@.subrange(0, i as int));
        assert(urls_str@.subrange(0, i + 1).drop_last() == urls_str@.subrange(0, i as int));
        if c == ',' || c == ' ' {
            let entry = trim_str(urls_str.substring_char(start, i));
            proof {
                lemma_kept_push(before.drop_last(), before.last());
                assert(before.drop_last().push(before.last()) == before);
            }
            let ghost prev = out@;
            if !entry.is_empty() {
                out.push(entry);
                assert(out@.map_values(|t: &str| t@) == prev.map_values(|t: &str| t@).push(
                    entry@,
                ));
            }
            assert(out@.map_values(|t: &str| t@) == kept(before));
            assert(fields(urls_str@.subrange(0, i + 1)).drop_last() == before);
            start = i + 1;
        } else {
            assert(urls_str@.subrange(start as int, i + 1) == urls_str@.subrange(
                start as int,
                i as int,
            ).push(c));
            assert(fields(urls_str@.subrange(0, i + 1)).drop_last() == before.drop_last());
        }
        i = i + 1;
    }
    let ghost all = fields(urls_str@.subrange(0, n as int));
    assert(urls_str@.subrange(0, n as int) == urls_str@);
    let entry = trim_str(urls_str.substring_char(start, n));
    proof {
        lemma_kept_push(all.drop_last(), all.last());
        assert(all.drop_last().push(all.last()) == all);
    }
    let ghost prev = out@;
    if !entry.is_empty() {
        out.push(entry);
        assert(out@.map_values(|t: &str| t@) == prev.map_values(|t: &str| t@).push(entry@));
    }
    assert(out@.map_values(|t: &str| t@) == kept(all));
    out
}

} // verus!
