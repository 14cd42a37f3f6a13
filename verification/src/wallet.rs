//! A wallet record — the string forms of a keypair and of the derived
//! public address — and the derivation of an account address from a
//! public key: the keccak-256 digest of the key's uncompressed
//! serialization body, keeping the digest's last 20 bytes. The digest
//! itself comes from an outside crate; the slicing around it is verified.

use vstd::prelude::*;
use vstd::string::*;

verus! {

/// The 32-byte keccak-256 digest of a byte string.
pub uninterp spec fn keccak256_of(data: Seq<u8>) -> Seq<u8>;

/// Relies on `tiny_keccak::keccak256`: the keccak-256 digest of the input,
/// 32 bytes long and a function of the input bytes alone.
#[verifier::external_body]
fn keccak256(data: &Vec<u8>) -> (r: Vec<u8>)
    ensures
        r@ == keccak256_of(data@),
        r@.len() == 32,
{
    tiny_keccak::keccak256(data.as_slice()).to_vec()
}

/// Derives the account address of an uncompressed public key: the key's
/// 64-byte body (everything after the leading tag byte, which an
/// uncompressed serialization fixes at 4) is digested with keccak-256 and
/// the last 20 bytes of the digest are the address.
pub fn public_key_address(key_bytes: &Vec<u8>) -> (addr: Vec<u8>)
    requires
        key_bytes@.len() == 65,
        key_bytes@[0] == 4u8,
    ensures
        addr@ == keccak256_of(key_bytes@.skip(1)).skip(12),
        addr@.len() == 20,
{
    let mut body: Vec<u8> = Vec::new();
    let mut i: usize = 1;
    while i < 65
        invariant
            1 <= i <= 65,
            key_bytes@.len() == 65,
            body@ == key_bytes@.subrange(1, i as int),
        decreases 65 - i,
    {
        body.push(key_bytes[i]);
        proof {
            assert(key_bytes@.subrange(1, i + 1) =~= key_bytes@.subrange(1, i as int).push(
                key_bytes@[i as int],
            ));
        }
        i = i + 1;
    }
    proof {
        assert(key_bytes@.subrange(1, 65) =~= key_bytes@.skip(1));
    }
    let hash = keccak256(&body);
    let mut addr: Vec<u8> = Vec::new();
    let mut j: usize = 12;
    while j < 32
        invariant
            12 <= j <= 32,
            hash@.len() == 32,
            hash@ == keccak256_of(key_bytes@.skip(1)),
            addr@ == hash@.subrange(12, j as int),
        decreases 32 - j,
    {
        addr.push(hash[j]);
        proof {
            assert(hash@.subrange(12, j + 1) =~= hash@.subrange(12, j as int).push(hash@[j as int]));
        }
        j = j + 1;
    }
    proof {
        assert(hash@.subrange(12, 32) =~= hash@.skip(12));
    }
    addr
}

/// The lower-case hex digit of a value below sixteen.
pub open spec fn hex_char(n: int) -> char {
    if n == 0 {
        '0'
    } else if n == 1 {
        '1'
    } else if n == 2 {
        '2'
    } else if n == 3 {
        '3'
    } else if n == 4 {
        '4'
    } else if n == 5 {
        '5'
    } else if n == 6 {
        '6'
    } else if n == 7 {
        '7'
    } else if n == 8 {
        '8'
    } else if n == 9 {
        '9'
    } else if n == 10 {
        'a'
    } else if n == 11 {
        'b'
    } else if n == 12 {
        'c'
    } else if n == 13 {
        'd'
    } else if n == 14 {
        'e'
    } else {
        'f'
    }
}

/// The hex rendering of the first `i` bytes of `data`, two digits a byte.
pub open spec fn hex_of(data: Seq<u8>, i: int) -> Seq<char>
    decreases i,
{
    if i <= 0 {
        Seq::empty()
    } else {
        hex_of(data, i - 1) + seq![
            hex_char(data[i - 1] as int / 16),
            hex_char(data[i - 1] as int % 16),
        ]
    }
}

/// The textual form of an address: `0x` followed by the hex digits of its
/// bytes.
pub open spec fn address_hex(data: Seq<u8>) -> Seq<char> {
    "0x"@ + hex_of(data, data.len() as int)
}

fn append_hex_digit(s: &mut String, nibble: u8)
    requires
        nibble < 16,
    ensures
        final(s)@ == old(s)@.push(hex_char(nibble as int)),
{
    match nibble {
        0 => {
            proof {
                reveal_strlit("0");
            }
            s.append("0");
        },
        1 => {
            proof {
                reveal_strlit("1");
            }
            s.append("1");
        },
        2 => {
            proof {
                reveal_strlit("2");
            }
            s.append("2");
        },
        3 => {
            proof {
                reveal_strlit("3");
            }
            s.append("3");
        },
        4 => {
            proof {
                reveal_strlit("4");
            }
            s.append("4");
        },
        5 => {
            proof {
                reveal_strlit("5");
            }
            s.append("5");
        },
        6 => {
            proof {
                reveal_strlit("6");
            }
            s.append("6");
        },
        7 => {
            proof {
                reveal_strlit("7");
            }
            s.append("7");
        },
        8 => {
            proof {
                reveal_strlit("8");
            }
            s.append("8");
        },
        9 => {
            proof {
                reveal_strlit("9");
            }
            s.append("9");
        },
        10 => {
            proof {
                reveal_strlit("a");
            }
            s.append("a");
        },
        11 => {
            proof {
                reveal_strlit("b");
            }
            s.append("b");
        },
        12 => {
            proof {
                reveal_strlit("c");
            }
            s.append("c");
        },
        13 => {
            proof {
                reveal_strlit("d");
            }
            s.append("d");
        },
        14 => {
            proof {
                reveal_strlit("e");
            }
            s.append("e");
        },
        15 => {
            proof {
                reveal_strlit("f");
            }
            s.append("f");
        },
        _ => {
            proof {
                assert(false);
            }
        },
    }
}

/// Renders address bytes as the original displays them: `0x` and then two
/// lower-case hex digits for each byte.
pub fn address_to_hex(addr: &Vec<u8>) -> (r: String)
    ensures
        r@ == address_hex(addr@),
{
    let n = addr.len();
    let mut r = String::from_str("0x");
    let mut i: usize = 0;
    proof {
        assert(r@ =~= "0x"@ + hex_of(addr@, 0));
    }
    while i < n
        invariant
            n == addr@.len(),
            0 <= i <= n,
            r@ == "0x"@ + hex_of(addr@, i as int),
        decreases n - i,
    {
        let b = addr[i];
        append_hex_digit(&mut r, b / 16);
        append_hex_digit(&mut r, b % 16);
        proof {
            assert(r@ =~= "0x"@ + hex_of(addr@, i + 1));
        }
        i = i + 1;
    }
    r
}

/// A keypair and its address, each in its textual form.
pub struct Wallet {
    pub secret_key: String,
    pub pub_key: String,
    pub pub_address: String,
}

impl Wallet {
    /// Assembles a wallet from the textual forms of the two keys and the
    /// public key's uncompressed serialization, from which the address is
    /// derived and rendered.
    pub fn new(secret_key: String, pub_key: String, key_bytes: &Vec<u8>) -> (w: Wallet)
        requires
            key_bytes@.len() == 65,
            key_bytes@[0] == 4u8,
        ensures
            w.secret_key@ == secret_key@,
            w.pub_key@ == pub_key@,
            w.pub_address@ == address_hex(keccak256_of(key_bytes@.skip(1)).skip(12)),
    {
        let pub_address = address_to_hex(&public_key_address(key_bytes));
        Wallet { secret_key, pub_key, pub_address }
    }

    /// The wallet as one human-readable block of text, field by field.
    pub fn to_display_string(&self) -> (r: String)
        ensures
            r@ == "Wallet:\n\tSecret Key: "@ + self.secret_key@ + "\n\tPublic Key: "@
                + self.pub_key@ + "\n\tPublic Address: "@ + self.pub_address@,
    {
        let mut r = String::from_str("Wallet:\n\tSecret Key: ");
        r.append(self.secret_key.as_str());
        r.append("\n\tPublic Key: ");
        r.append(self.pub_key.as_str());
        r.append("\n\tPublic Address: ");
        r.append(self.pub_address.as_str());
        r
    }
}

} // verus!
