use vstd::prelude::*;

verus! {

/// Number of bytes in an account or object address.
pub const ADDRESS_LENGTH: usize = 32;

/// A 32-byte account or object address.
#[derive(Clone, Copy, Debug, PartialEq, Eq, Hash)]
pub struct Address(pub [u8; 32]);

/// The error returned when a byte slice is not exactly 32 bytes long.
#[derive(Clone, Copy, Debug, PartialEq, Eq, Structural)]
pub struct AddressParseError;

impl View for Address {
    type V = Seq<u8>;

    open spec fn view(&self) -> Seq<u8> {
        self.0@
    }
}

/// The character of a hexadecimal digit `n` (`0 <= n < 16`), lower case.
pub open spec fn hex_digit(n: int) -> char {
    if n < 10 {
        (n + 48) as char
    } else {
        (n + 87) as char
    }
}

/// Lower-case hexadecimal of `bytes`, two digits per byte, most significant digit first.
pub open spec fn hex_chars(bytes: Seq<u8>) -> Seq<char>
    decreases bytes.len(),
{
    if bytes.len() == 0 {
        Seq::empty()
    } else {
        hex_chars(bytes.drop_last()) + seq![
            hex_digit(bytes.last() as int / 16),
            hex_digit(bytes.last() as int % 16),
        ]
    }
}

/// The text form of an address: `0x` followed by the hexadecimal of its bytes.
pub open spec fn address_text(bytes: Seq<u8>) -> Seq<char> {
    seq!['0', 'x'] + hex_chars(bytes)
}

/// The address whose bytes are `bytes` (meaningful when `bytes` has 32 elements).
pub open spec fn address_of(bytes: Seq<u8>) -> Address {
    choose|a: Address| a@ == bytes
}

/// An address is the address of its own bytes.
pub proof fn lemma_address_of(a: Address)
    ensures
        address_of(a@) == a,
{
    let b = address_of(a@);
    assert(b@ == a@);
    assert(b.0 =~= a.0);
}

/// The lower-case hexadecimal digits, in order of value.
pub open spec fn hex_alphabet() -> Seq<char> {
    "0123456789abcdef"@
}

/// Each value below sixteen is written as its digit in `0123456789abcdef`.
pub proof fn lemma_hex_digit_is_alphabet(n: int)
    requires
        0 <= n < 16,
    ensures
        hex_digit(n) == hex_alphabet()[n],
{
    reveal_strlit("0123456789abcdef");
    assert(hex_alphabet() =~= seq![
        '0', '1', '2', '3', '4', '5', '6', '7', '8', '9', 'a', 'b', 'c', 'd', 'e', 'f',
    ]);
    if n == 0 { assert(hex_digit(0) == '0'); }
    else if n == 1 { assert(hex_digit(1) == '1'); }
    else if n == 2 { assert(hex_digit(2) == '2'); }
    else if n == 3 { assert(hex_digit(3) == '3'); }
    else if n == 4 { assert(hex_digit(4) == '4'); }
    else if n == 5 { assert(hex_digit(5) == '5'); }
    else if n == 6 { assert(hex_digit(6) == '6'); }
    else if n == 7 { assert(hex_digit(7) == '7'); }
    else if n == 8 { assert(hex_digit(8) == '8'); }
    else if n == 9 { assert(hex_digit(9) == '9'); }
    else if n == 10 { assert(hex_digit(10) == 'a'); }
    else if n == 11 { assert(hex_digit(11) == 'b'); }
    else if n == 12 { assert(hex_digit(12) == 'c'); }
    else if n == 13 { assert(hex_digit(13) == 'd'); }
    else if n == 14 { assert(hex_digit(14) == 'e'); }
    else { assert(hex_digit(15) == 'f'); }
}

/// The hexadecimal of a byte sequence holds two digits per byte: for byte
/// `k`, the digit of its high half at `2k` and of its low half at `2k + 1`,
/// each taken from `0123456789abcdef`.
pub proof fn lemma_hex_chars_digits(bytes: Seq<u8>)
    ensures
        hex_chars(bytes).len() == 2 * bytes.len(),
        forall|k: int|
            0 <= k < bytes.len() ==> {
                &&& #[trigger] hex_chars(bytes)[2 * k] == hex_alphabet()[bytes[k] as int / 16]
                &&& hex_chars(bytes)[2 * k + 1] == hex_alphabet()[bytes[k] as int % 16]
            },
    decreases bytes.len(),
{
    if bytes.len() > 0 {
        let init = bytes.drop_last();
        lemma_hex_chars_digits(init);
        let n = bytes.len() - 1;
        lemma_hex_digit_is_alphabet(bytes[n] as int / 16);
        lemma_hex_digit_is_alphabet(bytes[n] as int % 16);
        assert forall|k: int| 0 <= k < bytes.len() implies {
            &&& #[trigger] hex_chars(bytes)[2 * k] == hex_alphabet()[bytes[k] as int / 16]
            &&& hex_chars(bytes)[2 * k + 1] == hex_alphabet()[bytes[k] as int % 16]
        } by {
            if k < n {
                assert(init[k] == bytes[k]);
                assert(hex_chars(init)[2 * k] == hex_alphabet()[init[k] as int / 16]);
            }
        }
    }
}

/// The text form of an address is `0x` followed by 64 lower-case
/// hexadecimal digits, two per byte, high half first: byte `k` is written at
/// positions `2 + 2k` and `3 + 2k` as the digits of `0123456789abcdef` at
/// `byte / 16` and `byte % 16`.
pub proof fn lemma_address_text_digits(a: Address)
    ensures
        address_text(a@).len() == 66,
        address_text(a@)[0] == '0',
        address_text(a@)[1] == 'x',
        forall|k: int|
            0 <= k < 32 ==> {
                &&& #[trigger] address_text(a@)[2 + 2 * k] == hex_alphabet()[a@[k] as int / 16]
                &&& address_text(a@)[3 + 2 * k] == hex_alphabet()[a@[k] as int % 16]
            },
{
    lemma_hex_chars_digits(a@);
    assert forall|k: int| 0 <= k < 32 implies {
        &&& #[trigger] address_text(a@)[2 + 2 * k] == hex_alphabet()[a@[k] as int / 16]
        &&& address_text(a@)[3 + 2 * k] == hex_alphabet()[a@[k] as int % 16]
    } by {
        assert(hex_chars(a@)[2 * k] == hex_alphabet()[a@[k] as int / 16]);
    }
}

/// Calls `String::push`, which appends one character to the string; the
/// contract claims that the string's characters grow by exactly that one.
#[verifier::external_body]
fn push_char(s: &mut String, c: char)
    ensures
        final(s)@ == old(s)@.push(c),
{
    s.push(c);
}

fn hex_digit_char(n: u8) -> (c: char)
    requires
        n < 16,
    ensures
        c == hex_digit(n as int),
{
    if n < 10 {
        (n + 48) as char
    } else {
        (n + 87) as char
    }
}

impl Address {
    /// Wraps 32 bytes as an address.
    pub fn new(bytes: [u8; 32]) -> (res: Address)
        ensures
            res@ == bytes@,
    {
        Address(bytes)
    }

    /// Reads an address from a slice, which must hold exactly 32 bytes.
    pub fn from_bytes(bytes: &[u8]) -> (res: Result<Address, AddressParseError>)
        ensures
            res is Ok <==> bytes@.len() == ADDRESS_LENGTH,
            res matches Ok(a) ==> a@ == bytes@,
    {
        if bytes.len() != ADDRESS_LENGTH {
            return Err(AddressParseError);
        }
        let a = Address::read_at(bytes, 0);
        assert(bytes@.subrange(0, 32) =~= bytes@);
        Ok(a)
    }

    /// Reads the 32 bytes at `start..start + 32` as an address.
    pub fn read_at(bytes: &[u8], start: usize) -> (res: Address)
        requires
            start + ADDRESS_LENGTH <= bytes@.len(),
        ensures
            res@ == bytes@.subrange(start as int, start + 32),
    {
        let mut arr = [0u8; 32];
        let mut i: usize = 0;
        while i < ADDRESS_LENGTH
            invariant
                start + ADDRESS_LENGTH <= bytes.len(),
                0 <= i <= ADDRESS_LENGTH,
                forall|j: int| 0 <= j < i ==> arr@[j] == bytes@[start + j],
            decreases ADDRESS_LENGTH - i,
        {
            arr[i] = bytes[start + i];
            i = i + 1;
        }
        assert(arr@ =~= bytes@.subrange(start as int, start + 32));
        Address(arr)
    }

    /// The bytes of the address.
    pub fn into_inner(self) -> (res: [u8; 32])
        ensures
            res@ == self@,
    {
        self.0
    }

    /// The bytes of the address, copied into a vector.
    pub fn to_vec(&self) -> (res: Vec<u8>)
        ensures
            res@ == self@,
    {
        let mut v: Vec<u8> = Vec::new();
        let mut i: usize = 0;
        while i < ADDRESS_LENGTH
            invariant
                0 <= i <= ADDRESS_LENGTH,
                self@.len() == ADDRESS_LENGTH,
                v@ =~= self@.take(i as int),
            decreases ADDRESS_LENGTH - i,
        {
            v.push(self.0[i]);
            i = i + 1;
        }
        v
    }

    /// The bytes of the address, borrowed.
    pub fn as_bytes(&self) -> (res: &[u8; 32])
        ensures
            res@ == self@,
    {
        &self.0
    }

    /// The text form of the address: `0x` and 64 lower-case hexadecimal digits.
    pub fn to_hex(&self) -> (res: String)
        ensures
            res@ == address_text(self@),
    {
        let mut s = String::new();
        push_char(&mut s, '0');
        push_char(&mut s, 'x');
        let mut i: usize = 0;
        while i < ADDRESS_LENGTH
            invariant
                0 <= i <= ADDRESS_LENGTH,
                self@.len() == ADDRESS_LENGTH,
                s@ == seq!['0', 'x'] + hex_chars(self@.take(i as int)),
            decreases ADDRESS_LENGTH - i,
        {
            let b = self.0[i];
            proof {
                assert(self@.take(i + 1).drop_last() =~= self@.take(i as int));
                assert(self@.take(i + 1).last() == b);
            }
            push_char(&mut s, hex_digit_char(b / 16));
            push_char(&mut s, hex_digit_char(b % 16));
            i = i + 1;
        }
        assert(self@.take(ADDRESS_LENGTH as int) =~= self@);
        s
    }
}

} // verus!
