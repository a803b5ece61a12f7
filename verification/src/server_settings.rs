//! The local server settings: the bearer token (generated, displayed), and the status
//! line.

use vstd::prelude::*;
use crate::messages::{decimal_spec, push_decimal};
use crate::text::{byte_len, chars_of, push_char, push_str, string_of, utf8_width};

verus! {

#[verifier::external_type_specification]
#[verifier::external_body]
pub struct ExThreadRng(rand::rngs::ThreadRng);

/// The thread-local random generator (`rand::rng`). Nothing is claimed of it.
#[verifier::external_body]
fn thread_rng() -> (r: rand::rngs::ThreadRng) {
    rand::rng()
}

/// Fills `bytes` with random data (`rand::Rng::fill_bytes`). The contract claims only that
/// the number of bytes stays the same; their values are chance.
#[verifier::external_body]
fn fill_random(rng: &mut rand::rngs::ThreadRng, bytes: &mut Vec<u8>)
    ensures
        final(bytes)@.len() == old(bytes)@.len(),
{
    rand::Rng::fill_bytes(rng, bytes.as_mut_slice());
}

/// The lower-case hexadecimal digit with value `d`.
pub open spec fn hex_digit(d: nat) -> char {
    if d < 10 {
        ('0' as nat + d) as char
    } else {
        ('a' as nat + d - 10) as char
    }
}

/// `bytes` in lower-case hexadecimal, two digits per byte.
pub open spec fn hex_text(bytes: Seq<u8>) -> Seq<char>
    decreases bytes.len(),
{
    if bytes.len() == 0 {
        Seq::empty()
    } else {
        hex_text(bytes.drop_last()) + seq![
            hex_digit(bytes.last() as nat / 16),
            hex_digit(bytes.last() as nat % 16),
        ]
    }
}

fn hex_char(d: u8) -> (r: char)
    requires
        d < 16,
    ensures
        r == hex_digit(d as nat),
{
    if d < 10 {
        let v: u8 = 48 + d;
        assert(v as nat == '0' as nat + d);
        v as char
    } else {
        let v: u8 = 97 + (d - 10);
        assert(v as nat == 'a' as nat + d - 10);
        v as char
    }
}

/// `bytes` in lower-case hexadecimal.
pub fn hex_token(bytes: &Vec<u8>) -> (r: String)
    ensures
        r@ == hex_text(bytes@),
{
    let mut r = String::new();
    let mut i: usize = 0;
    while i < bytes.len()
        invariant
            i <= bytes@.len(),
            r@ == hex_text(bytes@.subrange(0, i as int)),
        decreases bytes.len() - i,
    {
        let b = bytes[i];
        push_char(&mut r, hex_char(b / 16));
        push_char(&mut r, hex_char(b % 16));
        proof {
            let p1 = bytes@.subrange(0, i + 1);
            assert(p1.drop_last() =~= bytes@.subrange(0, i as int));
            assert(p1.last() == b);
        }
        i = i + 1;
    }
    assert(bytes@.subrange(0, bytes@.len() as int) =~= bytes@);
    r
}

proof fn lemma_hex_text_shape(bytes: Seq<u8>)
    ensures
        hex_text(bytes).len() == 2 * bytes.len(),
        forall|i: int|
            0 <= i < hex_text(bytes).len() ==> ('0' <= #[trigger] hex_text(bytes)[i] <= '9') || (
            'a' <= hex_text(bytes)[i] <= 'f'),
    decreases bytes.len(),
{
    if bytes.len() > 0 {
        lemma_hex_text_shape(bytes.drop_last());
    }
}

/// A new bearer token: sixteen random bytes in lower-case hexadecimal, so thirty-two
/// characters among `0`–`9` and `a`–`f`.
pub fn generate_token() -> (r: String)
    ensures
        r@.len() == 32,
        forall|i: int| 0 <= i < r@.len() ==> ('0' <= #[trigger] r@[i] <= '9') || ('a' <= r@[i] <= 'f'),
{
    let mut bytes: Vec<u8> = vec![0u8, 0, 0, 0, 0, 0, 0, 0, 0, 0, 0, 0, 0, 0, 0, 0];
    let mut rng = thread_rng();
    fill_random(&mut rng, &mut bytes);
    let r = hex_token(&bytes);
    proof {
        lemma_hex_text_shape(bytes@);
    }
    r
}

/// The number of characters of `t` whose encoding is exactly `n` bytes long, if a
/// character boundary falls there.
pub open spec fn boundary_at(t: Seq<char>, n: nat) -> Option<int> {
    if exists|k: int| 0 <= k <= t.len() && byte_len(t.subrange(0, k)) == n {
        Some(choose|k: int| 0 <= k <= t.len() && byte_len(t.subrange(0, k)) == n)
    } else {
        None
    }
}

/// How the settings show the token: `Not set` without one; else its first four bytes,
/// or all of it when those do not end on a character boundary, then `…`.
pub open spec fn token_display_spec(token: Option<Seq<char>>) -> Seq<char> {
    match token {
        None => "Not set"@,
        Some(t) => match boundary_at(t, 4) {
            Some(k) => t.subrange(0, k) + "…"@,
            None => t + "…"@,
        },
    }
}

proof fn lemma_byte_len_step(t: Seq<char>, k: int)
    requires
        0 <= k < t.len(),
    ensures
        byte_len(t.subrange(0, k + 1)) == byte_len(t.subrange(0, k)) + utf8_width(t[k]),
        utf8_width(t[k]) >= 1,
{
    crate::text::lemma_byte_len_push(t.subrange(0, k), t[k]);
    assert(t.subrange(0, k).push(t[k]) =~= t.subrange(0, k + 1));
}

proof fn lemma_byte_len_monotone(t: Seq<char>, a: int, b: int)
    requires
        0 <= a <= b <= t.len(),
    ensures
        byte_len(t.subrange(0, a)) + (b - a) <= byte_len(t.subrange(0, b)),
    decreases b - a,
{
    if a < b {
        lemma_byte_len_monotone(t, a, b - 1);
        lemma_byte_len_step(t, b - 1);
    }
}

/// How the settings show the token.
pub fn token_display(token: Option<&str>) -> (r: String)
    ensures
        r@ == token_display_spec(
            match token {
                Some(t) => Some(t@),
                None => None,
            },
        ),
{
    let t = match token {
        None => {
            return string_of("Not set");
        },
        Some(t) => t,
    };
    let cs = chars_of(t);
    let mut k: usize = 0;
    let mut bytes: usize = 0;
    assert(cs@.subrange(0, 0) =~= Seq::<char>::empty());
    while k < cs.len() && bytes < 4
        invariant
            k <= cs@.len(),
            cs@ == t@,
            bytes == byte_len(cs@.subrange(0, k as int)),
            bytes <= 7,
            forall|j: int| 0 <= j < k ==> byte_len(cs@.subrange(0, j)) < 4,
        decreases cs.len() - k,
    {
        proof {
            lemma_byte_len_step(cs@, k as int);
        }
        bytes = bytes + crate::text::char_width(cs[k]);
        k = k + 1;
    }
    let mut r = String::new();
    if bytes == 4 {
        let prefix = crate::text::string_from_chars(&cs, 0, k);
        push_str(&mut r, prefix.as_str());
        assert(boundary_at(t@, 4) == Some(k as int)) by {
            let c = choose|j: int| 0 <= j <= t@.len() && byte_len(t@.subrange(0, j)) == 4;
            if c < k {
                assert(byte_len(cs@.subrange(0, c)) < 4);
            }
            if c > k {
                lemma_byte_len_monotone(cs@, k as int, c);
            }
        }
    } else {
        push_str(&mut r, t);
        assert(boundary_at(t@, 4) is None) by {
            if exists|j: int| 0 <= j <= t@.len() && byte_len(t@.subrange(0, j)) == 4 {
                let c = choose|j: int| 0 <= j <= t@.len() && byte_len(t@.subrange(0, j)) == 4;
                if c < k {
                    assert(byte_len(cs@.subrange(0, c)) < 4);
                } else if c > k {
                    lemma_byte_len_monotone(cs@, k as int, c);
                    if k == cs@.len() {
                        assert(false);
                    }
                } else {
                    assert(false);
                }
            }
        }
    }
    push_str(&mut r, "…");
    r
}

/// What the local server is doing.
pub enum ServerStatus {
    Running(u16),
    Stopped,
    Failed(String),
}

/// The status line of the local server: `Running on <host>:<port>`, `Stopped`, or the
/// error that stopped it.
pub fn status_text(status: &ServerStatus, host: &str) -> (r: String)
    ensures
        r@ == (match status {
            ServerStatus::Running(port) => "Running on "@ + host@ + ":"@ + decimal_spec(
                *port as nat,
            ),
            ServerStatus::Stopped => "Stopped"@,
            ServerStatus::Failed(e) => e@,
        }),
{
    match status {
        ServerStatus::Running(port) => {
            let mut r = string_of("Running on ");
            push_str(&mut r, host);
            push_str(&mut r, ":");
            push_decimal(&mut r, *port as usize);
            r
        },
        ServerStatus::Stopped => string_of("Stopped"),
        ServerStatus::Failed(e) => e.clone(),
    }
}

} // verus!
