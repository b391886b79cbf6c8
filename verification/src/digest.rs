//! The digest under which a ledger password is stored.

use vstd::prelude::*;
use vstd::string::*;

verus! {

/// The 16 bytes of the MD5 digest of the bytes of `text`. The digest is
/// computed by the `md5` crate and taken on trust.
pub uninterp spec fn md5_of(text: Seq<char>) -> Seq<u8>;

/// The MD5 digest of the UTF-8 bytes of `text`, from `md5::compute`. The
/// result is the same whenever the text is, and is 16 bytes long, as the
/// crate's `Digest` is.
#[verifier::external_body]
fn md5_bytes(text: &str) -> (r: Vec<u8>)
    ensures
        r@ == md5_of(text@),
        r@.len() == 16,
{
    md5::compute(text.as_bytes()).0.to_vec()
}

/// The digit that stands for `n` in lower-case hexadecimal.
pub open spec fn hex_digit(n: u8) -> char {
    if n == 0 {
        '0'
    } else if n == 1 {
        '1'
    } else if n == 2 {
        '2'
    } else if n == 3 {
        '3'
    } else if n == 4 {
        '4'
    } else if n == 5 {
        '5'
    } else if n == 6 {
        '6'
    } else if n == 7 {
        '7'
    } else if n == 8 {
        '8'
    } else if n == 9 {
        '9'
    } else if n == 10 {
        'a'
    } else if n == 11 {
        'b'
    } else if n == 12 {
        'c'
    } else if n == 13 {
        'd'
    } else if n == 14 {
        'e'
    } else {
        'f'
    }
}

/// `bytes` in lower-case hexadecimal: two digits for each byte, the high
/// one first.
pub open spec fn hex_lower(bytes: Seq<u8>) -> Seq<char> {
    Seq::new(
        2 * bytes.len(),
        |i: int|
            if i % 2 == 0 {
                hex_digit(bytes[i / 2] / 16)
            } else {
                hex_digit(bytes[i / 2] % 16)
            },
    )
}

/// The digest that stands for the password `password`.
pub open spec fn password_digest(password: Seq<char>) -> Seq<char> {
    hex_lower(md5_of(password))
}

/// The digit that stands for `n`, as a text of one character.
fn hex_text(n: u8) -> (r: &'static str)
    requires
        n < 16,
    ensures
        r@ == seq![hex_digit(n)],
{
    proof {
        reveal_strlit("0");
        reveal_strlit("1");
        reveal_strlit("2");
        reveal_strlit("3");
        reveal_strlit("4");
        reveal_strlit("5");
        reveal_strlit("6");
        reveal_strlit("7");
        reveal_strlit("8");
        reveal_strlit("9");
        reveal_strlit("a");
        reveal_strlit("b");
        reveal_strlit("c");
        reveal_strlit("d");
        reveal_strlit("e");
        reveal_strlit("f");
    }
    let r = if n == 0 {
        "0"
    } else if n == 1 {
        "1"
    } else if n == 2 {
        "2"
    } else if n == 3 {
        "3"
    } else if n == 4 {
        "4"
    } else if n == 5 {
        "5"
    } else if n == 6 {
        "6"
    } else if n == 7 {
        "7"
    } else if n == 8 {
        "8"
    } else if n == 9 {
        "9"
    } else if n == 10 {
        "a"
    } else if n == 11 {
        "b"
    } else if n == 12 {
        "c"
    } else if n == 13 {
        "d"
    } else if n == 14 {
        "e"
    } else {
        "f"
    };
    proof {
        assert(r@ =~= seq![hex_digit(n)]);
    }
    r
}

/// `bytes` in lower-case hexadecimal.
pub fn to_hex_lower(bytes: &Vec<u8>) -> (r: String)
    ensures
        r@ == hex_lower(bytes@),
{
    let mut out = String::new();
    let mut i: usize = 0;
    while i < bytes.len()
        invariant
            i <= bytes.len(),
            out@ =~= hex_lower(bytes@.take(i as int)),
        decreases bytes.len() - i,
    {
        let b = bytes[i];
        let ghost prior = out@;
        out.append(hex_text(b / 16));
        out.append(hex_text(b % 16));
        proof {
            let want = hex_lower(bytes@.take(i as int + 1));
            assert(out@ == prior + seq![hex_digit(b / 16)] + seq![hex_digit(b % 16)]);
            assert(out@.len() == want.len());
            assert forall|k: int| 0 <= k < want.len() implies out@[k] == want[k] by {
                if k < 2 * i {
                    assert(bytes@.take(i as int + 1)[k / 2] == bytes@.take(i as int)[k / 2]);
                    assert(out@[k] == prior[k]);
                } else {
                    assert(k / 2 == i);
                    assert(bytes@.take(i as int + 1)[k / 2] == b);
                }
            }
        }
        i += 1;
    }
    proof {
        assert(bytes@.take(i as int) =~= bytes@);
    }
    out
}

/// The digest under which the password `password` is stored: its MD5
/// digest in lower-case hexadecimal, 32 characters long.
pub fn hash_password(password: &str) -> (r: String)
    ensures
        r@ == password_digest(password@),
        r@.len() == 32,
{
    let digest = md5_bytes(password);
    to_hex_lower(&digest)
}

} // verus!
