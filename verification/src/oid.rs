//! Commit identifiers: twenty bytes, written as forty hexadecimal digits.

use vstd::prelude::*;

verus! {

/// `git2::Error`: why a call into git2 failed. Nothing is read from it.
#[verifier::external_type_specification]
#[verifier::external_body]
pub struct ExGitError(git2::Error);

/// The hexadecimal digit of a value below sixteen, in lower case.
pub open spec fn hex_digit(n: int) -> char {
    seq!['0', '1', '2', '3', '4', '5', '6', '7', '8', '9', 'a', 'b', 'c', 'd', 'e', 'f'][n]
}

/// Two lower-case hexadecimal digits for each byte, the high half first.
pub open spec fn hex_text(bytes: Seq<u8>) -> Seq<char> {
    Seq::new(
        2 * bytes.len(),
        |i: int| if i % 2 == 0 { hex_digit(bytes[i / 2] as int / 16) } else { hex_digit(bytes[i / 2] as int % 16) },
    )
}

/// What `git2::Oid::from_str` makes of a text: the bytes of the identifier, or
/// nothing where it refuses the text.
pub uninterp spec fn parsed_oid(s: Seq<char>) -> Option<Seq<u8>>;

/// Whether the character is a hexadecimal digit, in either case.
pub open spec fn is_hex_digit(c: char) -> bool {
    ('0' <= c && c <= '9') || ('a' <= c && c <= 'f') || ('A' <= c && c <= 'F')
}

/// The text cannot name an identifier: it is empty, longer than forty
/// characters, or holds a character that is no hexadecimal digit.
pub open spec fn unreadable(s: Seq<char>) -> bool {
    s.len() == 0 || s.len() > 40 || exists|i: int| 0 <= i < s.len() && !is_hex_digit(#[trigger] s[i])
}

/// `hex::encode`: the bytes written as lower-case hexadecimal digits, two for
/// each byte.
#[verifier::external_body]
fn hex_encode(bytes: &[u8; 20]) -> (r: String)
    ensures
        r@ == hex_text(bytes@),
{
    hex::encode(bytes)
}

/// `git2::Oid::from_str`: parses an identifier written in hexadecimal digits.
/// It refuses a text that is empty, longer than forty characters, or holds a
/// character that is no hexadecimal digit. What it makes of any other text
/// goes by the name `parsed_oid`; an accepted text gives twenty bytes.
#[verifier::external_body]
fn git_oid_from_str(s: &str) -> (r: Result<[u8; 20], git2::Error>)
    ensures
        r is Ok <==> parsed_oid(s@) is Some,
        r matches Ok(raw) ==> parsed_oid(s@) == Some(raw@),
        unreadable(s@) ==> r is Err,
{
    git2::Oid::from_str(s).map(|oid| {
        let mut raw = [0u8; 20];
        raw.copy_from_slice(oid.as_bytes());
        raw
    })
}

/// The identifier of a Git object.
#[derive(Clone, Copy, Debug, PartialEq, Eq, Hash)]
pub struct Oid {
    raw: [u8; 20],
}

impl View for Oid {
    type V = Seq<u8>;

    closed spec fn view(&self) -> Seq<u8> {
        self.raw@
    }
}

/// The identifier that stands for "no commit" where a ref is created or
/// deleted: twenty zero bytes.
pub open spec fn zero_bytes() -> Seq<u8> {
    Seq::new(20, |i: int| 0u8)
}

impl Oid {
    /// Identifiers with the same bytes are the same identifier.
    pub proof fn lemma_same_view(self, other: Oid)
        ensures
            self@ == other@ <==> self == other,
    {
        if self@ == other@ {
            assert(self.raw@ =~= other.raw@);
            assert(self.raw == other.raw);
        }
    }

    /// The identifier with the given bytes.
    pub fn from_raw(raw: [u8; 20]) -> (r: Oid)
        ensures
            r@ == raw@,
    {
        Oid { raw }
    }

    /// Whether the two identifiers are the same.
    pub fn same(&self, other: &Oid) -> (r: bool)
        ensures
            r == (self@ == other@),
            r == (*self == *other),
    {
        let mut i: usize = 0;
        while i < 20
            invariant
                i <= 20,
                forall|k: int| 0 <= k < i ==> self.raw@[k] == other.raw@[k],
            decreases 20 - i,
        {
            if self.raw[i] != other.raw[i] {
                return false;
            }
            i += 1;
        }
        proof {
            assert(self.raw@ =~= other.raw@);
            self.lemma_same_view(*other);
        }
        true
    }

    /// Parses an identifier as Git writes it.
    pub fn from_str(s: &str) -> (r: Option<Oid>)
        ensures
            r == parsed(s@),
            r matches Some(oid) ==> parsed_oid(s@) == Some(oid@),
            unreadable(s@) ==> r is None,
    {
        match git_oid_from_str(s) {
            Ok(raw) => {
                let oid = Oid { raw };
                proof {
                    oid.lemma_same_view(oid_with(oid@));
                }
                Some(oid)
            },
            Err(_) => None,
        }
    }

    /// The forty hexadecimal digits of the identifier.
    pub fn to_hex(&self) -> (r: String)
        ensures
            r@ == hex_text(self@),
    {
        hex_encode(&self.raw)
    }
}

/// The identifier with the given bytes.
pub open spec fn oid_with(bytes: Seq<u8>) -> Oid {
    choose|oid: Oid| oid@ == bytes
}

/// The identifier that a text stands for, where Git reads it as one.
pub open spec fn parsed(s: Seq<char>) -> Option<Oid> {
    match parsed_oid(s) {
        Some(bytes) => Some(oid_with(bytes)),
        None => None,
    }
}

/// The identifier that stands for "no commit".
pub open spec fn zero_oid() -> Oid {
    choose|oid: Oid| oid@ == zero_bytes()
}

/// The identifier that stands for "no commit".
pub fn no_sha() -> (r: Oid)
    ensures
        r@ == zero_bytes(),
        r == zero_oid(),
{
    let r = Oid { raw: [0u8; 20] };
    proof {
        assert(r@ =~= zero_bytes());
        r.lemma_same_view(zero_oid());
    }
    r
}

/// `None` for the identifier that stands for "no commit", the identifier
/// itself otherwise.
pub fn optionify_sha(oid: Oid) -> (r: Option<Oid>)
    ensures
        r == (if oid == zero_oid() { None } else { Some(oid) }),
{
    let zero = no_sha();
    if oid.same(&zero) {
        None
    } else {
        Some(oid)
    }
}

} // verus!
