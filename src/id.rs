//! 20-byte identifiers written as 40 hexadecimal digits.
use vstd::prelude::*;
use vstd::string::StringSliceAdditionalSpecFns;

verus! {

/// An info-hash or a peer-id.
#[derive(Debug, Clone, Copy)]
pub struct ID(pub [u8; 20]);

/// Value of a hexadecimal digit, either case.
pub open spec fn hex_val(c: u8) -> Option<u8> {
    if 48 <= c <= 57 {
        Some((c - 48) as u8)
    } else if 97 <= c <= 102 {
        Some((c - 97 + 10) as u8)
    } else if 65 <= c <= 70 {
        Some((c - 65 + 10) as u8)
    } else {
        None
    }
}

/// Every byte of `s` is a hexadecimal digit.
pub open spec fn all_hex(s: Seq<u8>) -> bool {
    forall|i: int| 0 <= i < s.len() ==> (#[trigger] hex_val(s[i])) is Some
}

/// Byte `i` of the value written in hexadecimal in `s`.
pub open spec fn hex_byte(s: Seq<u8>, i: int) -> int {
    hex_val(s[2 * i])->Some_0 * 16 + hex_val(s[2 * i + 1])->Some_0
}

/// Why a string is not an identifier.
#[derive(Debug, Clone, Copy, PartialEq, Eq, Structural)]
pub enum IdError {
    /// The string is not 40 characters long.
    Length,
    /// A character is not a hexadecimal digit.
    NotHex,
}

/// Relies on `hex::decode_to_slice`: with 40 input bytes and a 20-byte
/// output it succeeds exactly when every input byte is a hexadecimal digit
/// (either case), and then byte `i` of the output is the value of digits
/// `2i` and `2i+1`.
#[verifier::external_body]
fn decode_hex_20(s: &[u8], out: &mut [u8; 20]) -> (r: bool)
    requires
        s@.len() == 40,
    ensures
        r == all_hex(s@),
        r ==> forall|i: int| 0 <= i < 20 ==> final(out)@[i] == hex_byte(s@, i),
{
    hex::decode_to_slice(s, out).is_ok()
}

impl ID {
    /// The all-zero identifier.
    pub fn default() -> (r: ID)
        ensures
            r.0@ == seq![0u8; 20],
    {
        let a: [u8; 20] = [0u8; 20];
        assert(a@ =~= seq![0u8; 20]);
        ID(a)
    }

    /// Reads an identifier written as 40 hexadecimal digits.
    pub fn from_str(s: &str) -> (r: Result<ID, IdError>)
        ensures
            s.spec_bytes().len() != 40 ==> r == Err::<ID, IdError>(IdError::Length),
            s.spec_bytes().len() == 40 && !all_hex(s.spec_bytes()) ==> r == Err::<ID, IdError>(
                IdError::NotHex,
            ),
            r is Ok <==> s.spec_bytes().len() == 40 && all_hex(s.spec_bytes()),
            r matches Ok(id) ==> forall|i: int|
                0 <= i < 20 ==> id.0@[i] == hex_byte(s.spec_bytes(), i),
    {
        let b = s.as_bytes();
        if b.len() != 40 {
            return Err(IdError::Length);
        }
        let mut out: [u8; 20] = [0u8; 20];
        if decode_hex_20(b, &mut out) {
            Ok(ID(out))
        } else {
            Err(IdError::NotHex)
        }
    }

    /// The identifier's bytes.
    pub fn as_bytes(&self) -> (r: &[u8; 20])
        ensures
            r@ == self.0@,
    {
        &self.0
    }
}

} // verus!
