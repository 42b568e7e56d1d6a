//! The table of pixel formats that a stream can declare.

use vstd::prelude::*;
use crate::bytes::{ascii, ascii_bytes, same_bytes};

verus! {

/// Colorspace (chroma subsampling and bit depth). Only a subset of what
/// producers may emit is supported.
#[derive(Debug, Clone, Copy, PartialEq, Eq, Structural)]
#[non_exhaustive]
pub enum Colorspace {
    /// Grayscale only, 8-bit.
    Cmono,
    /// Grayscale only, 12-bit.
    Cmono12,
    /// 4:2:0 with coincident chroma planes, 8-bit.
    C420,
    /// 4:2:0 with coincident chroma planes, 10-bit.
    C420p10,
    /// 4:2:0 with coincident chroma planes, 12-bit.
    C420p12,
    /// 4:2:0 with biaxially-displaced chroma planes, 8-bit.
    C420jpeg,
    /// 4:2:0 with coincident Cb and vertically-displaced Cr, 8-bit.
    C420paldv,
    /// 4:2:0 with vertically-displaced chroma planes, 8-bit.
    C420mpeg2,
    /// 4:2:2, 8-bit.
    C422,
    /// 4:2:2, 10-bit.
    C422p10,
    /// 4:2:2, 12-bit.
    C422p12,
    /// 4:4:4, 8-bit.
    C444,
    /// 4:4:4, 10-bit.
    C444p10,
    /// 4:4:4, 12-bit.
    C444p12,
}

/// How the chroma planes are sampled relative to luma.
#[derive(Debug, Clone, Copy, PartialEq, Eq, Structural)]
pub enum Subsampling {
    /// No chroma planes.
    Mono,
    /// Chroma halved in both directions.
    S420,
    /// Chroma halved horizontally.
    S422,
    /// Chroma at full resolution.
    S444,
}

impl Colorspace {
    /// The number of bits in a sample.
    pub open spec fn bit_depth(self) -> nat {
        match self {
            Colorspace::Cmono
            | Colorspace::C420
            | Colorspace::C422
            | Colorspace::C444
            | Colorspace::C420jpeg
            | Colorspace::C420paldv
            | Colorspace::C420mpeg2 => 8,
            Colorspace::C420p10 | Colorspace::C422p10 | Colorspace::C444p10 => 10,
            Colorspace::Cmono12
            | Colorspace::C420p12
            | Colorspace::C422p12
            | Colorspace::C444p12 => 12,
        }
    }

    /// The number of bytes that hold a sample: one up to eight bits, else
    /// two.
    pub open spec fn bytes_per_sample(self) -> nat {
        if self.bit_depth() <= 8 {
            1
        } else {
            2
        }
    }

    /// The subsampling class of this colorspace.
    pub open spec fn subsampling(self) -> Subsampling {
        match self {
            Colorspace::Cmono | Colorspace::Cmono12 => Subsampling::Mono,
            Colorspace::C420
            | Colorspace::C420p10
            | Colorspace::C420p12
            | Colorspace::C420jpeg
            | Colorspace::C420paldv
            | Colorspace::C420mpeg2 => Subsampling::S420,
            Colorspace::C422 | Colorspace::C422p10 | Colorspace::C422p12 => Subsampling::S422,
            Colorspace::C444 | Colorspace::C444p10 | Colorspace::C444p12 => Subsampling::S444,
        }
    }

    /// The text that names this colorspace in a prologue, after the tag
    /// character `C`.
    pub open spec fn name(self) -> Seq<char> {
        match self {
            Colorspace::Cmono => "mono"@,
            Colorspace::Cmono12 => "mono12"@,
            Colorspace::C420 => "420"@,
            Colorspace::C420p10 => "420p10"@,
            Colorspace::C420p12 => "420p12"@,
            Colorspace::C420jpeg => "420jpeg"@,
            Colorspace::C420paldv => "420paldv"@,
            Colorspace::C420mpeg2 => "420mpeg2"@,
            Colorspace::C422 => "422"@,
            Colorspace::C422p10 => "422p10"@,
            Colorspace::C422p12 => "422p12"@,
            Colorspace::C444 => "444"@,
            Colorspace::C444p10 => "444p10"@,
            Colorspace::C444p12 => "444p12"@,
        }
    }

    /// The bytes of `name`.
    pub open spec fn tag(self) -> Seq<u8> {
        ascii(self.name())
    }

    /// The colorspace that `value` names, if it names one.
    pub open spec fn with_tag(value: Seq<u8>) -> Option<Colorspace> {
        if exists|c: Colorspace| #[trigger] c.tag() == value {
            Some(choose|c: Colorspace| #[trigger] c.tag() == value)
        } else {
            None
        }
    }

    /// Return the bit depth per sample.
    #[inline]
    pub fn get_bit_depth(self) -> (bits: usize)
        ensures
            bits == self.bit_depth(),
    {
        match self {
            Colorspace::Cmono
            | Colorspace::C420
            | Colorspace::C422
            | Colorspace::C444
            | Colorspace::C420jpeg
            | Colorspace::C420paldv
            | Colorspace::C420mpeg2 => 8,
            Colorspace::C420p10 | Colorspace::C422p10 | Colorspace::C444p10 => 10,
            Colorspace::Cmono12
            | Colorspace::C420p12
            | Colorspace::C422p12
            | Colorspace::C444p12 => 12,
        }
    }

    /// Return the number of bytes in a sample.
    #[inline]
    pub fn get_bytes_per_sample(self) -> (bytes: usize)
        ensures
            bytes == self.bytes_per_sample(),
            1 <= bytes <= 2,
    {
        if self.get_bit_depth() <= 8 {
            1
        } else {
            2
        }
    }

    /// Return the subsampling class.
    pub fn get_subsampling(self) -> (class: Subsampling)
        ensures
            class == self.subsampling(),
    {
        match self {
            Colorspace::Cmono | Colorspace::Cmono12 => Subsampling::Mono,
            Colorspace::C420
            | Colorspace::C420p10
            | Colorspace::C420p12
            | Colorspace::C420jpeg
            | Colorspace::C420paldv
            | Colorspace::C420mpeg2 => Subsampling::S420,
            Colorspace::C422 | Colorspace::C422p10 | Colorspace::C422p12 => Subsampling::S422,
            Colorspace::C444 | Colorspace::C444p10 | Colorspace::C444p12 => Subsampling::S444,
        }
    }

    /// The name of this colorspace as a string.
    pub fn get_name(self) -> (text: &'static str)
        ensures
            text@ == self.name(),
            vstd::string::is_ascii(text),
    {
        proof {
            lemma_reveal_names();
        }
        match self {
            Colorspace::Cmono => "mono",
            Colorspace::Cmono12 => "mono12",
            Colorspace::C420 => "420",
            Colorspace::C420p10 => "420p10",
            Colorspace::C420p12 => "420p12",
            Colorspace::C420jpeg => "420jpeg",
            Colorspace::C420paldv => "420paldv",
            Colorspace::C420mpeg2 => "420mpeg2",
            Colorspace::C422 => "422",
            Colorspace::C422p10 => "422p10",
            Colorspace::C422p12 => "422p12",
            Colorspace::C444 => "444",
            Colorspace::C444p10 => "444p10",
            Colorspace::C444p12 => "444p12",
        }
    }

    /// Whether `value` is the name of this colorspace.
    pub fn is_named(self, value: &[u8]) -> (yes: bool)
        ensures
            yes == (self.tag() == value@),
            yes ==> Colorspace::with_tag(value@) == Some(self),
    {
        let yes = same_bytes(value, ascii_bytes(self.get_name()));
        proof {
            lemma_tags_differ();
            assert(Colorspace::with_tag(self.tag()) == Some(self));
        }
        yes
    }

    /// Looks `value` up in the table of names.
    pub fn from_tag(value: &[u8]) -> (found: Option<Colorspace>)
        ensures
            found == Colorspace::with_tag(value@),
    {
        if Colorspace::Cmono.is_named(value) {
            Some(Colorspace::Cmono)
        } else if Colorspace::Cmono12.is_named(value) {
            Some(Colorspace::Cmono12)
        } else if Colorspace::C420.is_named(value) {
            Some(Colorspace::C420)
        } else if Colorspace::C420p10.is_named(value) {
            Some(Colorspace::C420p10)
        } else if Colorspace::C420p12.is_named(value) {
            Some(Colorspace::C420p12)
        } else if Colorspace::C422.is_named(value) {
            Some(Colorspace::C422)
        } else if Colorspace::C422p10.is_named(value) {
            Some(Colorspace::C422p10)
        } else if Colorspace::C422p12.is_named(value) {
            Some(Colorspace::C422p12)
        } else if Colorspace::C444.is_named(value) {
            Some(Colorspace::C444)
        } else if Colorspace::C444p10.is_named(value) {
            Some(Colorspace::C444p10)
        } else if Colorspace::C444p12.is_named(value) {
            Some(Colorspace::C444p12)
        } else if Colorspace::C420jpeg.is_named(value) {
            Some(Colorspace::C420jpeg)
        } else if Colorspace::C420paldv.is_named(value) {
            Some(Colorspace::C420paldv)
        } else if Colorspace::C420mpeg2.is_named(value) {
            Some(Colorspace::C420mpeg2)
        } else {
            assert forall|c: Colorspace| c.tag() != value@ by {
                lemma_every_colorspace(c);
            }
            None
        }
    }
}

/// Makes the names of the colorspaces known to the prover.
pub proof fn lemma_reveal_names()
    ensures
        "mono"@ == seq!['m', 'o', 'n', 'o'],
        "mono12"@ == seq!['m', 'o', 'n', 'o', '1', '2'],
        "420"@ == seq!['4', '2', '0'],
        "420p10"@ == seq!['4', '2', '0', 'p', '1', '0'],
        "420p12"@ == seq!['4', '2', '0', 'p', '1', '2'],
        "420jpeg"@ == seq!['4', '2', '0', 'j', 'p', 'e', 'g'],
        "420paldv"@ == seq!['4', '2', '0', 'p', 'a', 'l', 'd', 'v'],
        "420mpeg2"@ == seq!['4', '2', '0', 'm', 'p', 'e', 'g', '2'],
        "422"@ == seq!['4', '2', '2'],
        "422p10"@ == seq!['4', '2', '2', 'p', '1', '0'],
        "422p12"@ == seq!['4', '2', '2', 'p', '1', '2'],
        "444"@ == seq!['4', '4', '4'],
        "444p10"@ == seq!['4', '4', '4', 'p', '1', '0'],
        "444p12"@ == seq!['4', '4', '4', 'p', '1', '2'],
{
    reveal_strlit("mono");
    reveal_strlit("mono12");
    reveal_strlit("420");
    reveal_strlit("420p10");
    reveal_strlit("420p12");
    reveal_strlit("420jpeg");
    reveal_strlit("420paldv");
    reveal_strlit("420mpeg2");
    reveal_strlit("422");
    reveal_strlit("422p10");
    reveal_strlit("422p12");
    reveal_strlit("444");
    reveal_strlit("444p10");
    reveal_strlit("444p12");
    assert("mono"@ =~= seq!['m', 'o', 'n', 'o']);
    assert("mono12"@ =~= seq!['m', 'o', 'n', 'o', '1', '2']);
    assert("420"@ =~= seq!['4', '2', '0']);
    assert("420p10"@ =~= seq!['4', '2', '0', 'p', '1', '0']);
    assert("420p12"@ =~= seq!['4', '2', '0', 'p', '1', '2']);
    assert("420jpeg"@ =~= seq!['4', '2', '0', 'j', 'p', 'e', 'g']);
    assert("420paldv"@ =~= seq!['4', '2', '0', 'p', 'a', 'l', 'd', 'v']);
    assert("420mpeg2"@ =~= seq!['4', '2', '0', 'm', 'p', 'e', 'g', '2']);
    assert("422"@ =~= seq!['4', '2', '2']);
    assert("422p10"@ =~= seq!['4', '2', '2', 'p', '1', '0']);
    assert("422p12"@ =~= seq!['4', '2', '2', 'p', '1', '2']);
    assert("444"@ =~= seq!['4', '4', '4']);
    assert("444p10"@ =~= seq!['4', '4', '4', 'p', '1', '0']);
    assert("444p12"@ =~= seq!['4', '4', '4', 'p', '1', '2']);
}

/// No two colorspaces have the same name.
pub proof fn lemma_tags_differ()
    ensures
        forall|a: Colorspace, b: Colorspace| #[trigger] a.tag() == #[trigger] b.tag() ==> a == b,
        forall|c: Colorspace| Colorspace::with_tag(#[trigger] c.tag()) == Some(c),
{
    lemma_reveal_names();
    assert forall|a: Colorspace, b: Colorspace| #[trigger] a.tag() == #[trigger] b.tag() implies a
        == b by {
        lemma_tag_shape(a);
        lemma_tag_shape(b);
    }
}

/// The name of a colorspace is made of digits and small letters, and of at
/// most eight of them.
pub proof fn lemma_tag_is_alphanumeric(c: Colorspace)
    ensures
        3 <= c.tag().len() <= 8,
        forall|i: int|
            0 <= i < c.tag().len() ==> 0x30 <= #[trigger] c.tag()[i] <= 0x39 || 0x61 <= c.tag()[i]
                <= 0x7A,
{
    lemma_reveal_names();
    lemma_tag_shape(c);
}

/// The table holds these fourteen colorspaces and no other.
proof fn lemma_every_colorspace(c: Colorspace)
    ensures
        c == Colorspace::Cmono || c == Colorspace::Cmono12 || c == Colorspace::C420 || c
            == Colorspace::C420p10 || c == Colorspace::C420p12 || c == Colorspace::C420jpeg || c
            == Colorspace::C420paldv || c == Colorspace::C420mpeg2 || c == Colorspace::C422 || c
            == Colorspace::C422p10 || c == Colorspace::C422p12 || c == Colorspace::C444 || c
            == Colorspace::C444p10 || c == Colorspace::C444p12,
{
}

/// The length of each name and the bytes that tell the names apart.
proof fn lemma_tag_shape(c: Colorspace)
    ensures
        c.tag().len() == c.name().len(),
        3 <= c.tag().len() <= 8,
        forall|i: int| 0 <= i < c.tag().len() ==> c.tag()[i] == c.name()[i] as u8,
        match c {
            Colorspace::Cmono => c.tag().len() == 4,
            Colorspace::Cmono12 => c.tag().len() == 6 && c.tag()[0] == 0x6D,
            Colorspace::C420 => c.tag().len() == 3 && c.tag()[2] == 0x30,
            Colorspace::C420p10 => c.tag().len() == 6 && c.tag()[0] == 0x34 && c.tag()[2] == 0x30
                && c.tag()[5] == 0x30,
            Colorspace::C420p12 => c.tag().len() == 6 && c.tag()[0] == 0x34 && c.tag()[2] == 0x30
                && c.tag()[5] == 0x32,
            Colorspace::C420jpeg => c.tag().len() == 7,
            Colorspace::C420paldv => c.tag().len() == 8 && c.tag()[3] == 0x70,
            Colorspace::C420mpeg2 => c.tag().len() == 8 && c.tag()[3] == 0x6D,
            Colorspace::C422 => c.tag().len() == 3 && c.tag()[2] == 0x32,
            Colorspace::C422p10 => c.tag().len() == 6 && c.tag()[0] == 0x34 && c.tag()[2] == 0x32
                && c.tag()[5] == 0x30,
            Colorspace::C422p12 => c.tag().len() == 6 && c.tag()[0] == 0x34 && c.tag()[2] == 0x32
                && c.tag()[5] == 0x32,
            Colorspace::C444 => c.tag().len() == 3 && c.tag()[2] == 0x34,
            Colorspace::C444p10 => c.tag().len() == 6 && c.tag()[0] == 0x34 && c.tag()[2] == 0x34
                && c.tag()[5] == 0x30,
            Colorspace::C444p12 => c.tag().len() == 6 && c.tag()[0] == 0x34 && c.tag()[2] == 0x34
                && c.tag()[5] == 0x32,
        },
{
    lemma_reveal_names();
}

} // verus!
