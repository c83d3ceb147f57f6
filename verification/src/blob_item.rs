use vstd::prelude::*;
use crate::store::{blob_is_binary, chars_to_string, human_size, human_size_of};

verus! {

/// A fixed-size binary identifier (content hash) naming one stored object.
///
/// The store supplies these; the engine never makes one up. Twenty bytes is
/// the store's raw identifier width.
#[derive(Clone, Copy, Debug)]
pub struct ObjectId {
    pub bytes: [u8; 20],
}

impl View for ObjectId {
    type V = Seq<u8>;

    open spec fn view(&self) -> Seq<u8> {
        self.bytes@
    }
}

/// The lower-case hexadecimal digit for a value below sixteen.
pub open spec fn hex_char(n: u8) -> char {
    if n == 0 {
        '0'
    } else if n == 1 {
        '1'
    } else if n == 2 {
        '2'
    } else if n == 3 {
        '3'
    } else if n == 4 {
        '4'
    } else if n == 5 {
        '5'
    } else if n == 6 {
        '6'
    } else if n == 7 {
        '7'
    } else if n == 8 {
        '8'
    } else if n == 9 {
        '9'
    } else if n == 10 {
        'a'
    } else if n == 11 {
        'b'
    } else if n == 12 {
        'c'
    } else if n == 13 {
        'd'
    } else if n == 14 {
        'e'
    } else {
        'f'
    }
}

/// The lower-case hexadecimal rendering of a byte sequence, two digits per
/// byte, high nibble first.
pub open spec fn hex_of(bytes: Seq<u8>) -> Seq<char>
    decreases bytes.len(),
{
    if bytes.len() == 0 {
        Seq::empty()
    } else {
        seq![hex_char(bytes[0] / 16), hex_char(bytes[0] % 16)] + hex_of(bytes.drop_first())
    }
}

proof fn lemma_hex_of_push(bytes: Seq<u8>, b: u8)
    ensures
        hex_of(bytes.push(b)) == hex_of(bytes) + seq![hex_char(b / 16), hex_char(b % 16)],
    decreases bytes.len(),
{
    if bytes.len() == 0 {
        assert(bytes.push(b)[0] == b);
        assert(bytes.push(b).drop_first() =~= Seq::<u8>::empty());
        assert(hex_of(bytes.push(b).drop_first()) =~= Seq::<char>::empty());
        assert(hex_of(bytes.push(b)) =~= seq![hex_char(b / 16), hex_char(b % 16)]);
        assert(hex_of(bytes) =~= Seq::<char>::empty());
        assert(hex_of(bytes) + seq![hex_char(b / 16), hex_char(b % 16)] =~= hex_of(
            bytes.push(b),
        ));
    } else {
        assert(bytes.push(b).drop_first() =~= bytes.drop_first().push(b));
        lemma_hex_of_push(bytes.drop_first(), b);
        assert(hex_of(bytes.push(b)) =~= hex_of(bytes) + seq![
            hex_char(b / 16),
            hex_char(b % 16),
        ]);
    }
}

impl ObjectId {
    /// The identifier as forty lower-case hexadecimal digits.
    pub fn to_hex(&self) -> (r: String)
        ensures
            r@ == hex_of(self@),
            r@.len() == 40,
    {
        let mut chars: Vec<char> = Vec::new();
        let mut i: usize = 0;
        while i < 20
            invariant
                0 <= i <= 20,
                chars@ == hex_of(self.bytes@.take(i as int)),
                chars@.len() == 2 * i,
            decreases 20 - i,
        {
            let b = self.bytes[i];
            let hi: u8 = b / 16;
            let lo: u8 = b % 16;
            chars.push(hex_char_exec(hi));
            chars.push(hex_char_exec(lo));
            proof {
                lemma_hex_of_push(self.bytes@.take(i as int), self.bytes@[i as int]);
                assert(self.bytes@.take(i + 1) =~= self.bytes@.take(i as int).push(
                    self.bytes@[i as int],
                ));
            }
            i = i + 1;
        }
        proof {
            assert(self.bytes@.take(20) =~= self.bytes@);
        }
        chars_to_string(&chars)
    }
}

/// The executable counterpart of `hex_char`.
fn hex_char_exec(n: u8) -> (r: char)
    ensures
        r == hex_char(n),
{
    if n == 0 {
        '0'
    } else if n == 1 {
        '1'
    } else if n == 2 {
        '2'
    } else if n == 3 {
        '3'
    } else if n == 4 {
        '4'
    } else if n == 5 {
        '5'
    } else if n == 6 {
        '6'
    } else if n == 7 {
        '7'
    } else if n == 8 {
        '8'
    } else if n == 9 {
        '9'
    } else if n == 10 {
        'a'
    } else if n == 11 {
        'b'
    } else if n == 12 {
        'c'
    } else if n == 13 {
        'd'
    } else if n == 14 {
        'e'
    } else {
        'f'
    }
}

/// Content classification of a stored blob object.
#[derive(Clone, Copy, Debug, PartialEq, Eq, Structural)]
pub enum BlobFormat {
    Binary,
    Text,
}

impl BlobFormat {
    /// The single-character marker used in reports: `b` for binary content,
    /// `t` for text.
    pub fn code(&self) -> (r: char)
        ensures
            r == (if self is Binary {
                'b'
            } else {
                't'
            }),
    {
        match self {
            BlobFormat::Binary => 'b',
            BlobFormat::Text => 't',
        }
    }

    /// Classification from the store's binary-content verdict.
    pub fn classify(is_binary: bool) -> (r: BlobFormat)
        ensures
            r == (if is_binary {
                BlobFormat::Binary
            } else {
                BlobFormat::Text
            }),
    {
        if is_binary {
            BlobFormat::Binary
        } else {
            BlobFormat::Text
        }
    }

    /// Classifies a blob by the store's binary-content heuristic. The verdict
    /// itself comes from the store; this only maps it onto the two classes.
    pub fn from_blob(blob: &git2::Blob) -> (r: BlobFormat) {
        BlobFormat::classify(blob_is_binary(blob))
    }
}

/// One successfully read blob object: its identifier, payload size in bytes,
/// and content class.
///
/// Records are ordered by `size` alone; the relative order of records of
/// equal size is not part of any contract here.
#[derive(Clone, Copy, Debug)]
pub struct BlobItem {
    pub id: ObjectId,
    pub size: u64,
    pub format: BlobFormat,
}

impl BlobItem {
    /// The record's size as human-readable text.
    pub fn size_text(&self) -> (r: String)
        ensures
            r@ == human_size_of(self.size as u128),
    {
        human_size(self.size as u128)
    }
}

impl PartialEq for BlobItem {
    fn eq(&self, other: &Self) -> (r: bool) {
        self.size == other.size
    }
}

impl vstd::std_specs::cmp::PartialEqSpecImpl for BlobItem {
    open spec fn obeys_eq_spec() -> bool {
        true
    }

    open spec fn eq_spec(&self, other: &Self) -> bool {
        self.size == other.size
    }
}

impl PartialOrd for BlobItem {
    fn partial_cmp(&self, other: &Self) -> (r: Option<core::cmp::Ordering>) {
        if self.size < other.size {
            Some(core::cmp::Ordering::Less)
        } else if self.size == other.size {
            Some(core::cmp::Ordering::Equal)
        } else {
            Some(core::cmp::Ordering::Greater)
        }
    }
}

impl vstd::std_specs::cmp::PartialOrdSpecImpl for BlobItem {
    open spec fn obeys_partial_cmp_spec() -> bool {
        true
    }

    open spec fn partial_cmp_spec(&self, other: &Self) -> Option<core::cmp::Ordering> {
        if self.size < other.size {
            Some(core::cmp::Ordering::Less)
        } else if self.size == other.size {
            Some(core::cmp::Ordering::Equal)
        } else {
            Some(core::cmp::Ordering::Greater)
        }
    }
}

} // verus!
