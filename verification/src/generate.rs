use vstd::prelude::*;

use arbitrary::Unstructured;
use vstd::slice::slice_subrange;

use crate::filename::{
    is_portable_char, is_portable_filename, lemma_portable_byte_len,
    lemma_portable_filename_is_short_ascii, PortableFilename,
};

verus! {

// ---------------------------------------------------------------------------
// The alphabet and the choice sets
// ---------------------------------------------------------------------------

/// The `i`-th byte of the portable filename character set, in the order that
/// generation relies on: `.`, then `A-Z`, `a-z`, `0-9`, `_`, and `-` last, so
/// that dropping the first or the last byte, or both, leaves out the period,
/// the hyphen, or both.
pub open spec fn alphabet_byte(i: int) -> u8 {
    if i == 0 {
        '.' as u8
    } else if i <= 26 {
        ('A' as u8 + (i - 1)) as u8
    } else if i <= 52 {
        ('a' as u8 + (i - 27)) as u8
    } else if i <= 62 {
        ('0' as u8 + (i - 53)) as u8
    } else if i == 63 {
        '_' as u8
    } else {
        '-' as u8
    }
}

/// The 65 bytes of the portable filename character set.
pub open spec fn spec_alphabet() -> Seq<u8> {
    Seq::new(65, |i: int| alphabet_byte(i))
}

/// The set of characters that one position of a generated name is drawn from.
#[derive(Debug, Clone, Copy, PartialEq, Eq)]
pub enum ChoiceSet {
    /// Every portable character but `.` and `-`.
    NoHyphenOrPeriod,
    /// Every portable character but `-`.
    NoHyphen,
    /// Every portable character but `.`.
    NoPeriod,
    /// Every portable character.
    All,
}

/// The bytes of a choice set, as a slice of the alphabet.
pub open spec fn choice_bytes(set: ChoiceSet) -> Seq<u8> {
    match set {
        ChoiceSet::NoHyphenOrPeriod => spec_alphabet().subrange(1, 64),
        ChoiceSet::NoHyphen => spec_alphabet().subrange(0, 64),
        ChoiceSet::NoPeriod => spec_alphabet().subrange(1, 65),
        ChoiceSet::All => spec_alphabet(),
    }
}

/// The set that the next character of a `len`-character name is drawn from,
/// once `picks` have been drawn: the first character is never `-`, and never
/// `.` in a one-character name; the second character of a two-character name
/// that starts with `.` is never `.`; any other character may be any portable
/// character.
pub open spec fn spec_choice_set(len: int, picks: Seq<u8>) -> ChoiceSet {
    if picks.len() == 0 {
        if len == 1 {
            ChoiceSet::NoHyphenOrPeriod
        } else {
            ChoiceSet::NoHyphen
        }
    } else if picks.len() == 1 && len == 2 && picks[0] == '.' as u8 {
        ChoiceSet::NoPeriod
    } else {
        ChoiceSet::All
    }
}

/// Whether each byte of `picks` was drawn from the set that
/// [`spec_choice_set`] gives for its position in a `len`-byte name.
pub open spec fn picks_fit(len: int, picks: Seq<u8>) -> bool {
    forall|i: int|
        0 <= i < picks.len() ==> choice_bytes(spec_choice_set(len, picks.take(i))).contains(
            #[trigger] picks[i],
        )
}

/// The name that a sequence of bytes spells, one character per byte.
pub open spec fn chars_of(picks: Seq<u8>) -> Seq<char> {
    picks.map_values(|b: u8| b as char)
}

/// Which bytes the alphabet holds, and where.
proof fn lemma_alphabet()
    ensures
        spec_alphabet().len() == 65,
        spec_alphabet()[0] == '.' as u8,
        spec_alphabet()[64] == '-' as u8,
        forall|i: int| 0 <= i < 65 ==> is_portable_char(#[trigger] spec_alphabet()[i] as char),
        forall|i: int|
            1 <= i < 64 ==> #[trigger] spec_alphabet()[i] != '.' as u8 && spec_alphabet()[i]
                != '-' as u8,
        forall|b: u8| is_portable_char(b as char) ==> #[trigger] spec_alphabet().contains(b),
{
    assert forall|b: u8| is_portable_char(b as char) implies #[trigger] spec_alphabet().contains(
        b,
    ) by {
        let i: int = if b == '.' as u8 {
            0
        } else if 'A' as u8 <= b <= 'Z' as u8 {
            b - 'A' as u8 + 1
        } else if 'a' as u8 <= b <= 'z' as u8 {
            b - 'a' as u8 + 27
        } else if '0' as u8 <= b <= '9' as u8 {
            b - '0' as u8 + 53
        } else if b == '_' as u8 {
            63
        } else {
            64
        };
        assert(spec_alphabet()[i] == b);
    }
}

/// The names that generation can spell are exactly the portable filenames:
/// a sequence of 1 to 255 bytes whose every byte was drawn from the set for
/// its position spells a portable filename, and every portable filename is
/// spelled by such a sequence (its own bytes).
pub proof fn lemma_picks_fit_iff_portable(len: int, picks: Seq<u8>)
    requires
        1 <= len <= 255,
        picks.len() == len,
    ensures
        picks_fit(len, picks) <==> is_portable_filename(chars_of(picks)),
{
    lemma_alphabet();
    let s = chars_of(picks);
    if picks_fit(len, picks) {
        assert forall|i: int| 0 <= i < s.len() implies is_portable_char(#[trigger] s[i]) by {
            assert(choice_bytes(spec_choice_set(len, picks.take(i))).contains(picks[i]));
        }
        assert(choice_bytes(spec_choice_set(len, picks.take(0))).contains(picks[0]));
        if len == 2 && picks[0] == '.' as u8 {
            assert(choice_bytes(spec_choice_set(len, picks.take(1))).contains(picks[1]));
        }
        lemma_portable_byte_len(s);
    }
    if is_portable_filename(s) {
        assert forall|i: int| 0 <= i < picks.len() implies choice_bytes(
            spec_choice_set(len, picks.take(i)),
        ).contains(#[trigger] picks[i]) by {
            assert(is_portable_char(s[i]));
            assert(picks[i] as char == s[i]);
            assert(spec_alphabet().contains(picks[i]));
            let k = choose|k: int| 0 <= k < 65 && spec_alphabet()[k] == picks[i];
            let kind = spec_choice_set(len, picks.take(i));
            let set = choice_bytes(kind);
            match kind {
                ChoiceSet::NoHyphenOrPeriod => {
                    assert(s =~= seq![s[0]]);
                    assert(k != 0 && k != 64);
                    assert(set[k - 1] == picks[i]);
                },
                ChoiceSet::NoHyphen => {
                    assert(k != 64);
                    assert(set[k] == picks[i]);
                },
                ChoiceSet::NoPeriod => {
                    assert(s =~= seq![s[0], s[1]]);
                    assert(k != 0);
                    assert(set[k - 1] == picks[i]);
                },
                ChoiceSet::All => {
                    assert(set[k] == picks[i]);
                },
            }
        }
    }
}

/// The portable filename character set, in the order of [`alphabet_byte`].
const PORTABLE_ALPHABET: [u8; 65] = [
    '.' as u8,
    'A' as u8, 'B' as u8, 'C' as u8, 'D' as u8, 'E' as u8, 'F' as u8, 'G' as u8, 'H' as u8,
    'I' as u8, 'J' as u8, 'K' as u8, 'L' as u8, 'M' as u8, 'N' as u8, 'O' as u8, 'P' as u8,
    'Q' as u8, 'R' as u8, 'S' as u8, 'T' as u8, 'U' as u8, 'V' as u8, 'W' as u8, 'X' as u8,
    'Y' as u8, 'Z' as u8,
    'a' as u8, 'b' as u8, 'c' as u8, 'd' as u8, 'e' as u8, 'f' as u8, 'g' as u8, 'h' as u8,
    'i' as u8, 'j' as u8, 'k' as u8, 'l' as u8, 'm' as u8, 'n' as u8, 'o' as u8, 'p' as u8,
    'q' as u8, 'r' as u8, 's' as u8, 't' as u8, 'u' as u8, 'v' as u8, 'w' as u8, 'x' as u8,
    'y' as u8, 'z' as u8,
    '0' as u8, '1' as u8, '2' as u8, '3' as u8, '4' as u8, '5' as u8, '6' as u8, '7' as u8,
    '8' as u8, '9' as u8,
    '_' as u8,
    '-' as u8,
];

/// The set that character `pos` of a `len`-character name is drawn from;
/// `first` is the first character drawn, once there is one.
pub fn choice_set(len: usize, pos: usize, first: Option<u8>) -> (r: ChoiceSet)
    ensures
        forall|picks: Seq<u8>|
            picks.len() == pos && (pos > 0 ==> first == Some(picks[0])) ==> #[trigger] spec_choice_set(
                len as int,
                picks,
            ) == r,
{
    if pos == 0 {
        if len == 1 {
            ChoiceSet::NoHyphenOrPeriod
        } else {
            ChoiceSet::NoHyphen
        }
    } else {
        match first {
            Some(f) if pos == 1 && len == 2 && f == '.' as u8 => ChoiceSet::NoPeriod,
            _ => ChoiceSet::All,
        }
    }
}

/// The bytes of `set`, as a slice of `alphabet`.
fn choices_in(alphabet: &[u8], set: ChoiceSet) -> (r: &[u8])
    requires
        alphabet@ == spec_alphabet(),
    ensures
        r@ == choice_bytes(set),
{
    let n = alphabet.len();
    match set {
        ChoiceSet::NoHyphenOrPeriod => slice_subrange(alphabet, 1, n - 1),
        ChoiceSet::NoHyphen => slice_subrange(alphabet, 0, n - 1),
        ChoiceSet::NoPeriod => slice_subrange(alphabet, 1, n),
        ChoiceSet::All => alphabet,
    }
}

// ---------------------------------------------------------------------------
// Drawing from arbitrary's `Unstructured`
// ---------------------------------------------------------------------------

/// arbitrary's `Unstructured`, the source of bytes that generation draws on;
/// what it holds is named by [`unstructured_bytes`].
#[verifier::external_type_specification]
#[verifier::external_body]
pub struct ExUnstructured<'a>(arbitrary::Unstructured<'a>);

/// arbitrary's `Error`, carried through opaquely.
#[verifier::external_type_specification]
#[verifier::external_body]
pub struct ExArbitraryError(arbitrary::Error);

/// The bytes that an `Unstructured` has left to hand out.
pub uninterp spec fn unstructured_bytes(u: Unstructured<'_>) -> Seq<u8>;

/// What `Unstructured::int_in_range(lo..=hi)` for `usize` gives when `data`
/// is left, `lo < hi` and the range is too wide for one byte: the value drawn,
/// and how many bytes of `data` it consumed. In arbitrary's source both depend
/// on `data`, `lo` and `hi` alone: the bytes read stop once they cover
/// `hi - lo`, so a range that fits in 32 bits reads the same bytes on every
/// platform.
pub uninterp spec fn int_in_range_draw(data: Seq<u8>, lo: usize, hi: usize) -> (usize, nat);

/// What `Unstructured::int_in_range(lo..=hi)` for `usize` draws when `data` is
/// left, and how many bytes it consumes. A one-value range, or no data left,
/// gives `lo` and consumes nothing; a range of at most 256 values consumes one
/// byte `b` and gives `lo + b % (hi - lo + 1)`; a wider range is named by
/// [`int_in_range_draw`].
pub open spec fn draw_in_range(data: Seq<u8>, lo: usize, hi: usize) -> (usize, nat) {
    if lo == hi || data.len() == 0 {
        (lo, 0)
    } else if hi - lo < 256 {
        ((lo + data[0] as int % (hi - lo + 1)) as usize, 1)
    } else {
        int_in_range_draw(data, lo, hi)
    }
}

/// `Unstructured::int_in_range(lo..=hi)`, for `usize`.
///
/// Trusted. arbitrary's source panics when `lo > hi` (left out by `requires`)
/// and otherwise always returns `Ok` with a value in `lo..=hi`, computed from
/// the bytes left in `u` and the range alone, after which `u` holds what
/// follows the bytes it consumed. [`draw_in_range`] gives the value and the
/// count: what arbitrary documents for empty data, what its source computes
/// for a one-value range or one of at most 256 values (one byte, taken modulo
/// the number of values), and, for wider ranges, the name
/// [`int_in_range_draw`].
#[verifier::external_body]
fn int_in_range(u: &mut Unstructured, lo: usize, hi: usize) -> (r: Result<usize, arbitrary::Error>)
    requires
        lo <= hi,
    ensures
        r is Ok,
        r->Ok_0 == draw_in_range(unstructured_bytes(*old(u)), lo, hi).0,
        hi - lo >= 256 && unstructured_bytes(*old(u)).len() > 0 ==> r->Ok_0 == int_in_range_draw(
            unstructured_bytes(*old(u)),
            lo,
            hi,
        ).0,
        lo <= r->Ok_0 <= hi,
        draw_in_range(unstructured_bytes(*old(u)), lo, hi).1 <= unstructured_bytes(
            *old(u),
        ).len() && unstructured_bytes(*final(u)) == unstructured_bytes(*old(u)).skip(
            draw_in_range(unstructured_bytes(*old(u)), lo, hi).1 as int,
        ),
{
    u.int_in_range(lo..=hi)
}

/// What `choose` and `choose_index` draw among `n` choices when `data` is
/// left: `int_in_range(0..=n - 1)`.
pub open spec fn index_draw(data: Seq<u8>, n: nat) -> (usize, nat) {
    draw_in_range(data, 0, (n - 1) as usize)
}

/// `Unstructured::choose(choices)`, with the chosen byte copied out.
///
/// Trusted. arbitrary's source returns `Err(EmptyChoose)`, consuming nothing,
/// exactly when `choices` is empty; otherwise it draws an index with
/// `int_in_range(0..=choices.len() - 1)` and returns `Ok` with the element at
/// that index.
#[verifier::external_body]
fn choose_byte(u: &mut Unstructured, choices: &[u8]) -> (r: Result<u8, arbitrary::Error>)
    ensures
        r is Ok <==> choices@.len() > 0,
        choices@.len() == 0 ==> unstructured_bytes(*final(u)) == unstructured_bytes(*old(u)),
        choices@.len() > 0 ==> index_draw(unstructured_bytes(*old(u)), choices@.len()).0
            < choices@.len() && r->Ok_0 == choices@[index_draw(
            unstructured_bytes(*old(u)),
            choices@.len(),
        ).0 as int],
        choices@.len() > 0 ==> index_draw(unstructured_bytes(*old(u)), choices@.len()).1
            <= unstructured_bytes(*old(u)).len() && unstructured_bytes(*final(u))
            == unstructured_bytes(*old(u)).skip(
            index_draw(unstructured_bytes(*old(u)), choices@.len()).1 as int,
        ),
{
    u.choose(choices).copied()
}

/// `String::with_capacity`. Trusted: std documents that it creates a new,
/// empty `String`; only the emptiness is stated.
#[verifier::external_body]
fn string_with_capacity(capacity: usize) -> (s: String)
    ensures
        s@ == Seq::<char>::empty(),
{
    String::with_capacity(capacity)
}

/// `String::push`. Trusted: std documents that it appends `c` to the end
/// of `s`.
#[verifier::external_body]
fn push_char(s: &mut String, c: char)
    ensures
        final(s)@ == old(s)@.push(c),
{
    s.push(c)
}

// ---------------------------------------------------------------------------
// Generation
// ---------------------------------------------------------------------------

/// The bytes that generation picks for a `len`-character name once `picks`
/// are drawn and `data` is left, and what is left of `data` after them.
pub open spec fn spec_draw_picks(data: Seq<u8>, len: nat, picks: Seq<u8>) -> (Seq<u8>, Seq<u8>)
    decreases len - picks.len(),
{
    if picks.len() >= len {
        (picks, data)
    } else {
        let set = choice_bytes(spec_choice_set(len as int, picks));
        let draw = index_draw(data, set.len());
        spec_draw_picks(data.skip(draw.1 as int), len, picks.push(set[draw.0 as int]))
    }
}

/// The length that generation draws from `data`: `int_in_range(1..=MAX_LEN)`.
pub open spec fn spec_drawn_len(data: Seq<u8>) -> usize {
    draw_in_range(data, 1, 255).0
}

/// The name that generation spells from `data`.
pub open spec fn spec_generated_name(data: Seq<u8>) -> Seq<char> {
    let start = data.skip(draw_in_range(data, 1, 255).1 as int);
    chars_of(spec_draw_picks(start, spec_drawn_len(data) as nat, seq![]).0)
}

/// What is left of `data` after generation.
pub open spec fn spec_generated_rest(data: Seq<u8>) -> Seq<u8> {
    let start = data.skip(draw_in_range(data, 1, 255).1 as int);
    spec_draw_picks(start, spec_drawn_len(data) as nat, seq![]).1
}

/// Drawing the rest of a `len`-byte name from `tail`, whose bytes are the
/// positions of the bytes of `picks` in their choice sets, spells `picks` and
/// uses up `tail`.
proof fn lemma_draw_reaches(len: nat, picks: Seq<u8>, tail: Seq<u8>, j: nat)
    requires
        picks.len() == len,
        tail.len() == len,
        j <= len,
        forall|i: int|
            0 <= i < len ==> {
                let set = choice_bytes(spec_choice_set(len as int, picks.take(i)));
                &&& (#[trigger] tail[i]) < set.len()
                &&& set[tail[i] as int] == picks[i]
            },
    ensures
        spec_draw_picks(tail.skip(j as int), len, picks.take(j as int)) == (
            picks,
            tail.skip(len as int),
        ),
    decreases len - j,
{
    if j < len {
        lemma_alphabet();
        let set = choice_bytes(spec_choice_set(len as int, picks.take(j as int)));
        let d = tail.skip(j as int);
        assert(63 <= set.len() <= 65);
        assert(tail[j as int] < set.len());
        assert(d.len() > 0 && d[0] == tail[j as int]);
        vstd::arithmetic::div_mod::lemma_small_mod(d[0] as nat, set.len());
        assert(index_draw(d, set.len()).0 == tail[j as int]);
        assert(picks.take(j as int).push(picks[j as int]) =~= picks.take((j + 1) as int));
        assert(d.skip(1) =~= tail.skip((j + 1) as int));
        lemma_draw_reaches(len, picks, tail, j + 1);
    } else {
        assert(picks.take(j as int) =~= picks);
    }
}

/// Every portable filename can be generated: for each one there are input
/// bytes from which generation spells exactly that name, using them all.
pub proof fn lemma_every_portable_filename_is_generated(s: Seq<char>)
    requires
        is_portable_filename(s),
    ensures
        exists|data: Seq<u8>|
            spec_generated_name(data) == s && spec_generated_rest(data).len() == 0,
{
    lemma_portable_filename_is_short_ascii(s);
    let len = s.len();
    let picks = s.map_values(|c: char| c as u8);
    assert(chars_of(picks) =~= s);
    lemma_picks_fit_iff_portable(len as int, picks);
    let tail = Seq::new(
        len,
        |i: int|
            (choose|k: int|
                0 <= k < choice_bytes(spec_choice_set(len as int, picks.take(i))).len()
                    && choice_bytes(spec_choice_set(len as int, picks.take(i)))[k] == picks[i]) as u8,
    );
    assert forall|i: int| 0 <= i < len implies {
        let set = choice_bytes(spec_choice_set(len as int, picks.take(i)));
        &&& (#[trigger] tail[i]) < set.len()
        &&& set[tail[i] as int] == picks[i]
    } by {
        let set = choice_bytes(spec_choice_set(len as int, picks.take(i)));
        assert(set.contains(picks[i]));
    }
    let data = seq![(len - 1) as u8] + tail;
    assert(data[0] == len - 1);
    vstd::arithmetic::div_mod::lemma_small_mod((len - 1) as nat, 255);
    assert(draw_in_range(data, 1, 255) == (len as usize, 1nat));
    assert(data.skip(1) =~= tail);
    lemma_draw_reaches(len, picks, tail, 0);
    assert(tail.skip(0) =~= tail);
    assert(picks.take(0) =~= Seq::<u8>::empty());
    assert(spec_generated_name(data) == s);
}

impl PortableFilename {
    /// Generates an arbitrary portable filename from the bytes in `u`.
    ///
    /// The length is drawn with `int_in_range(1..=MAX_LEN)`, then each
    /// character with `choose` from the set that [`choice_set`] gives for its
    /// position: only valid names come out, so no fuzzing cycle is spent on
    /// inputs that validation would refuse, and every valid name can come out
    /// ([`lemma_every_portable_filename_is_generated`]). The name is built in a
    /// string of exactly the drawn length.
    pub fn arbitrary(u: &mut Unstructured<'_>) -> (r: arbitrary::Result<Self>)
        ensures
            r is Ok,
            r->Ok_0@ == spec_generated_name(unstructured_bytes(*old(u))),
            r->Ok_0@.len() == spec_drawn_len(unstructured_bytes(*old(u))),
            unstructured_bytes(*final(u)) == spec_generated_rest(unstructured_bytes(*old(u))),
            is_portable_filename(r->Ok_0@),
    {
        let alphabet: &[u8] = PORTABLE_ALPHABET.as_slice();
        let len: usize = int_in_range(u, 1, Self::MAX_LEN)?;
        let ghost start = unstructured_bytes(*u);
        let ghost mut picks: Seq<u8> = seq![];
        let mut s = string_with_capacity(len);
        let mut first: Option<u8> = None;
        let mut pos: usize = 0;
        proof {
            assert(alphabet@ =~= spec_alphabet());
        }
        while pos < len
            invariant
                1 <= len <= PortableFilename::MAX_LEN,
                alphabet@ == spec_alphabet(),
                pos <= len,
                picks.len() == pos,
                pos > 0 ==> first == Some(picks[0]),
                picks_fit(len as int, picks),
                s@ == chars_of(picks),
                spec_draw_picks(unstructured_bytes(*u), len as nat, picks) == spec_draw_picks(
                    start,
                    len as nat,
                    seq![],
                ),
            decreases len - pos,
        {
            let set = choice_set(len, pos, first);
            let choices = choices_in(alphabet, set);
            proof {
                lemma_alphabet();
                assert(spec_choice_set(len as int, picks) == set);
            }
            let c = choose_byte(u, choices)?;
            if pos == 0 {
                first = Some(c);
            }
            push_char(&mut s, c as char);
            proof {
                let before = picks;
                picks = picks.push(c);
                assert(chars_of(picks) =~= chars_of(before).push(c as char));
                assert(choices@.contains(c));
                assert forall|i: int| 0 <= i < picks.len() implies choice_bytes(
                    spec_choice_set(len as int, picks.take(i)),
                ).contains(#[trigger] picks[i]) by {
                    if i == before.len() {
                        assert(picks.take(i) =~= before);
                    } else {
                        assert(picks.take(i) =~= before.take(i));
                    }
                }
            }
            pos = pos + 1;
        }
        proof {
            lemma_picks_fit_iff_portable(len as int, picks);
        }
        Ok(PortableFilename::from_string(s).expect("valid filename"))
    }

    /// The bounds that `Arbitrary::size_hint` reports for a portable filename:
    /// at least 1, at most [`PortableFilename::MAX_LEN`].
    pub fn size_hint(_depth: usize) -> (r: (usize, Option<usize>))
        ensures
            r == (1usize, Some(PortableFilename::MAX_LEN)),
    {
        (1, Some(Self::MAX_LEN))
    }
}

} // verus!
