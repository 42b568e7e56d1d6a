//! The byte-level vocabulary of the format: its delimiters and magics, and
//! searching a byte sequence for a delimiter.

use vstd::prelude::*;

verus! {

/// Ends the prologue and every frame header.
pub const TERMINATOR: u8 = 0x0A;

/// Separates the tokens of a header line.
pub const FIELD_SEP: u8 = 0x20;

/// Separates numerator and denominator of a ratio.
pub const RATIO_SEP: u8 = 0x3A;

/// The most bytes a header line may have before its terminator.
pub const MAX_PARAMS_SIZE: usize = 1024;

/// The bytes of a text, one for each character. It is meant for ASCII text.
pub open spec fn ascii(text: Seq<char>) -> Seq<u8> {
    Seq::new(text.len(), |i: int| text[i] as u8)
}

/// The bytes of an ASCII string.
pub(crate) fn ascii_bytes(text: &'static str) -> (bytes: &'static [u8])
    requires
        vstd::string::is_ascii(text),
    ensures
        bytes@ == ascii(text@),
{
    broadcast use vstd::string::is_ascii_spec_bytes;

    text.as_bytes()
}

/// The bytes `YUV4MPEG2 `, trailing space included, that open a stream.
pub open spec fn file_magic() -> Seq<u8> {
    ascii("YUV4MPEG2 "@)
}

/// The bytes `FRAME` that open a frame record.
pub open spec fn frame_magic() -> Seq<u8> {
    ascii("FRAME"@)
}

/// The two magics, byte by byte.
pub proof fn lemma_magics()
    ensures
        file_magic() == seq![
            0x59u8,
            0x55u8,
            0x56u8,
            0x34u8,
            0x4Du8,
            0x50u8,
            0x45u8,
            0x47u8,
            0x32u8,
            0x20u8,
        ],
        frame_magic() == seq![0x46u8, 0x52u8, 0x41u8, 0x4Du8, 0x45u8],
        file_magic().len() == 10,
        frame_magic().len() == 5,
{
    reveal_strlit("YUV4MPEG2 ");
    reveal_strlit("FRAME");
    assert(file_magic() =~= seq![
        0x59u8,
        0x55u8,
        0x56u8,
        0x34u8,
        0x4Du8,
        0x50u8,
        0x45u8,
        0x47u8,
        0x32u8,
        0x20u8,
    ]);
    assert(frame_magic() =~= seq![0x46u8, 0x52u8, 0x41u8, 0x4Du8, 0x45u8]);
}

/// The exec form of `file_magic`.
pub(crate) fn file_magic_bytes() -> (magic: &'static [u8])
    ensures
        magic@ == file_magic(),
        magic@.len() == 10,
{
    proof {
        reveal_strlit("YUV4MPEG2 ");
    }
    ascii_bytes("YUV4MPEG2 ")
}

/// The exec form of `frame_magic`.
pub(crate) fn frame_magic_bytes() -> (magic: &'static [u8])
    ensures
        magic@ == frame_magic(),
        magic@.len() == 5,
{
    proof {
        reveal_strlit("FRAME");
    }
    ascii_bytes("FRAME")
}

/// The number of bytes of `s` that come before the first occurrence of
/// `byte`; the length of `s` if `byte` does not occur.
pub open spec fn first_index_of(s: Seq<u8>, byte: u8) -> nat
    decreases s.len(),
{
    if s.len() == 0 || s[0] == byte {
        0
    } else {
        1 + first_index_of(s.drop_first(), byte)
    }
}

/// `first_index_of` lies within the sequence, no byte before it is `byte`,
/// and the byte at it, if there is one, is `byte`.
pub proof fn lemma_first_index_of(s: Seq<u8>, byte: u8)
    ensures
        first_index_of(s, byte) <= s.len(),
        forall|j: int| 0 <= j < first_index_of(s, byte) ==> s[j] != byte,
        first_index_of(s, byte) < s.len() ==> s[first_index_of(s, byte) as int] == byte,
        first_index_of(s, byte) == s.len() <==> !s.contains(byte),
    decreases s.len(),
{
    if s.len() == 0 || s[0] == byte {
    } else {
        let t = s.drop_first();
        lemma_first_index_of(t, byte);
        let k = first_index_of(t, byte) as int;
        assert forall|j: int| 0 <= j < k + 1 implies s[j] != byte by {
            if j > 0 {
                assert(s[j] == t[j - 1]);
            }
        }
        if k < t.len() {
            assert(s[k + 1] == t[k]);
        }
        if s.contains(byte) {
            let i = choose|i: int| 0 <= i < s.len() && s[i] == byte;
            assert(t[i - 1] == byte);
            assert(t.contains(byte));
        }
    }
}

/// The position that ends a run free of `byte` is `first_index_of`.
pub proof fn lemma_first_index_of_is(s: Seq<u8>, byte: u8, n: int)
    requires
        0 <= n <= s.len(),
        forall|j: int| 0 <= j < n ==> s[j] != byte,
        n < s.len() ==> s[n] == byte,
    ensures
        first_index_of(s, byte) == n,
{
    lemma_first_index_of(s, byte);
    let k = first_index_of(s, byte) as int;
    if k < n {
        assert(s[k] == byte);
    } else if k > n {
        assert(s[n] != byte);
    }
}

/// The pieces that `s` falls into when it is cut at every `sep`. There is
/// one piece more than there are separators, and a piece may be empty.
pub open spec fn split(s: Seq<u8>, sep: u8) -> Seq<Seq<u8>>
    decreases s.len(),
{
    let cut = first_index_of(s, sep) as int;
    if cut >= s.len() {
        seq![s]
    } else {
        seq![s.take(cut)] + split(s.skip(cut + 1), sep)
    }
}

/// The pieces put together again, with one `sep` between neighbours.
pub open spec fn join(parts: Seq<Seq<u8>>, sep: u8) -> Seq<u8>
    decreases parts.len(),
{
    if parts.len() == 0 {
        Seq::empty()
    } else if parts.len() == 1 {
        parts[0]
    } else {
        join(parts.drop_last(), sep) + seq![sep] + parts.last()
    }
}

/// Cutting finds a piece that was appended behind a separator.
pub proof fn lemma_split_append(s: Seq<u8>, last: Seq<u8>, sep: u8)
    requires
        !last.contains(sep),
    ensures
        split(s + seq![sep] + last, sep) == split(s, sep).push(last),
    decreases s.len(),
{
    let whole = s + seq![sep] + last;
    let cut = first_index_of(s, sep) as int;
    lemma_first_index_of(s, sep);
    lemma_first_index_of(last, sep);
    if cut >= s.len() {
        lemma_first_index_of_is(whole, sep, s.len() as int);
        assert(whole.take(cut) =~= s);
        assert(whole.skip(cut + 1) =~= last);
        assert(split(last, sep) =~= seq![last]);
        assert(split(whole, sep) =~= seq![s] + seq![last]);
        assert(split(s, sep).push(last) =~= seq![s] + seq![last]);
    } else {
        lemma_first_index_of_is(whole, sep, cut);
        assert(whole.take(cut) =~= s.take(cut));
        assert(whole.skip(cut + 1) =~= s.skip(cut + 1) + seq![sep] + last);
        lemma_split_append(s.skip(cut + 1), last, sep);
        assert(split(whole, sep) =~= seq![s.take(cut)] + split(s.skip(cut + 1), sep).push(last));
        assert(split(s, sep).push(last) =~= seq![s.take(cut)] + split(s.skip(cut + 1), sep).push(
            last,
        ));
    }
}

/// Cutting what was joined gives the pieces back, provided there is at
/// least one piece and none of them holds the separator.
pub proof fn lemma_split_join(parts: Seq<Seq<u8>>, sep: u8)
    requires
        parts.len() >= 1,
        forall|i: int| 0 <= i < parts.len() ==> !(#[trigger] parts[i]).contains(sep),
    ensures
        split(join(parts, sep), sep) == parts,
    decreases parts.len(),
{
    if parts.len() == 1 {
        lemma_first_index_of(parts[0], sep);
        assert(split(parts[0], sep) =~= seq![parts[0]]);
        assert(parts =~= seq![parts[0]]);
    } else {
        let front = parts.drop_last();
        assert forall|i: int| 0 <= i < front.len() implies !(#[trigger] front[i]).contains(sep) by {
            assert(front[i] == parts[i]);
        }
        lemma_split_join(front, sep);
        lemma_split_append(join(front, sep), parts.last(), sep);
        assert(front.push(parts.last()) =~= parts);
    }
}

/// A byte that is neither the separator nor in any of the pieces is not in
/// what they are joined to.
pub proof fn lemma_join_lacks(parts: Seq<Seq<u8>>, sep: u8, byte: u8)
    requires
        byte != sep,
        forall|i: int| 0 <= i < parts.len() ==> !(#[trigger] parts[i]).contains(byte),
    ensures
        !join(parts, sep).contains(byte),
    decreases parts.len(),
{
    if parts.len() >= 2 {
        let front = parts.drop_last();
        assert forall|i: int| 0 <= i < front.len() implies !(#[trigger] front[i]).contains(byte) by {
            assert(front[i] == parts[i]);
        }
        lemma_join_lacks(front, sep, byte);
        lemma_concat_lacks(join(front, sep), seq![sep], byte);
        lemma_concat_lacks(join(front, sep) + seq![sep], parts.last(), byte);
    }
}

/// A byte that is in neither of two sequences is not in the two put
/// together.
pub proof fn lemma_concat_lacks(a: Seq<u8>, b: Seq<u8>, byte: u8)
    requires
        !a.contains(byte),
        !b.contains(byte),
    ensures
        !(a + b).contains(byte),
{
    if (a + b).contains(byte) {
        let i = choose|i: int| 0 <= i < (a + b).len() && (a + b)[i] == byte;
        if i < a.len() {
            assert(a[i] == byte);
        } else {
            assert(b[i - a.len()] == byte);
        }
    }
}

/// Finds the first `byte` at or after `start`. Returns its index, or the
/// length of `s` if there is none.
pub(crate) fn find_byte(s: &[u8], start: usize, byte: u8) -> (end: usize)
    requires
        start <= s@.len(),
    ensures
        end == start + first_index_of(s@.skip(start as int), byte),
        start <= end <= s@.len(),
{
    let mut i: usize = start;
    while i < s.len() && s[i] != byte
        invariant
            start <= i <= s@.len(),
            forall|j: int| start <= j < i ==> s@[j] != byte,
        decreases s@.len() - i,
    {
        i += 1;
    }
    proof {
        lemma_first_index_of_is(s@.skip(start as int), byte, i - start);
    }
    i
}

/// Whether `s` begins with `prefix`.
pub(crate) fn starts_with(s: &[u8], prefix: &[u8]) -> (yes: bool)
    ensures
        yes == prefix@.is_prefix_of(s@),
{
    if s.len() < prefix.len() {
        return false;
    }
    let mut i: usize = 0;
    while i < prefix.len()
        invariant
            i <= prefix@.len() <= s@.len(),
            forall|j: int| 0 <= j < i ==> s@[j] == prefix@[j],
        decreases prefix@.len() - i,
    {
        if s[i] != prefix[i] {
            return false;
        }
        i += 1;
    }
    assert(s@.subrange(0, prefix@.len() as int) =~= prefix@);
    true
}

/// Whether two byte strings hold the same bytes.
pub(crate) fn same_bytes(a: &[u8], b: &[u8]) -> (yes: bool)
    ensures
        yes == (a@ == b@),
{
    if a.len() != b.len() {
        return false;
    }
    let yes = starts_with(a, b);
    proof {
        if yes {
            assert(a@ =~= a@.subrange(0, b@.len() as int));
        }
    }
    yes
}

/// Copies the bytes `s[from..to]` into a new vector.
pub(crate) fn copy_range(s: &[u8], from: usize, to: usize) -> (out: Vec<u8>)
    requires
        from <= to <= s@.len(),
    ensures
        out@ == s@.subrange(from as int, to as int),
{
    let mut out: Vec<u8> = Vec::new();
    let mut i: usize = from;
    while i < to
        invariant
            from <= i <= to <= s@.len(),
            out@ == s@.subrange(from as int, i as int),
        decreases to - i,
    {
        out.push(s[i]);
        i += 1;
        assert(out@ =~= s@.subrange(from as int, i as int));
    }
    out
}

/// Overwrites all of `dst` with the bytes of `src` that start at `from`.
pub(crate) fn copy_into(dst: &mut Vec<u8>, src: &[u8], from: usize)
    requires
        from + old(dst)@.len() <= src@.len(),
    ensures
        final(dst)@ == src@.subrange(from as int, from + old(dst)@.len()),
{
    let n: usize = dst.len();
    let len: usize = src.len();
    let mut i: usize = 0;
    while i < n
        invariant
            i <= n == dst@.len() == old(dst)@.len(),
            from + n <= len == src@.len(),
            forall|j: int| 0 <= j < i ==> dst@[j] == src@[from + j],
        decreases n - i,
    {
        dst[i] = src[from + i];
        i += 1;
    }
    assert(dst@ =~= src@.subrange(from as int, from + n));
}

} // verus!
