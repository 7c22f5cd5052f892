//! Content digests, keyed digests and their text forms.

use hmac::{Hmac, Mac};
use sha2::{Digest, Sha256};
use vstd::prelude::*;
use vstd::string::*;
use vstd::utf8::encode_utf8;
use vstd::utf8::is_ascii_chars;
use vstd::utf8::is_ascii_chars_encode_utf8;

verus! {

/// The SHA-256 digest of `data`.
pub uninterp spec fn sha256_of(data: Seq<u8>) -> Seq<u8>;

/// The HMAC-SHA-256 code of `data` under `key`.
pub uninterp spec fn hmac_sha256_of(key: Seq<u8>, data: Seq<u8>) -> Seq<u8>;

/// `sha2::Sha256` (`new`, `update`, `finalize`): the digest depends on the bytes
/// alone and is 32 bytes long. The bit counter of the hash overflows only past
/// 2^61 bytes, which no address space holds.
#[verifier::external_body]
fn sha256_digest(data: &[u8]) -> (r: Vec<u8>)
    ensures
        r@ == sha256_of(data@),
        r@.len() == 32,
{
    let mut hasher = Sha256::new();
    hasher.update(data);
    hasher.finalize().to_vec()
}

/// `hmac::Hmac<sha2::Sha256>` (`new_from_slice`, `update`, `finalize`): a key of
/// any length is accepted, and the code depends on key and data alone and is 32
/// bytes long.
#[verifier::external_body]
fn hmac_sha256_code(key: &[u8], data: &[u8]) -> (r: Vec<u8>)
    ensures
        r@ == hmac_sha256_of(key@, data@),
        r@.len() == 32,
{
    let mut mac = <Hmac<Sha256> as Mac>::new_from_slice(key).expect("HMAC accepts any key length");
    mac.update(data);
    mac.finalize().into_bytes().to_vec()
}

/// The HMAC-SHA-256 code of `data` under `key`.
pub fn hmac_sha256(key: &[u8], data: &[u8]) -> (r: Vec<u8>)
    ensures
        r@ == hmac_sha256_of(key@, data@),
        r@.len() == 32,
{
    hmac_sha256_code(key, data)
}

// ---------------------------------------------------------------------------
// Hexadecimal text
// ---------------------------------------------------------------------------

/// The small hexadecimal digit of `n`.
pub open spec fn hex_digit(n: int) -> char {
    if n < 10 {
        ('0' as u32 + n) as char
    } else {
        ('a' as u32 + (n - 10)) as char
    }
}

/// The capital hexadecimal digit of `n`.
pub open spec fn hex_digit_capital(n: int) -> char {
    if n < 10 {
        ('0' as u32 + n) as char
    } else {
        ('A' as u32 + (n - 10)) as char
    }
}

/// Two small hexadecimal digits for each byte, the high half first.
pub open spec fn hex_of(bytes: Seq<u8>) -> Seq<char> {
    Seq::new(
        2 * bytes.len(),
        |i: int|
            if i % 2 == 0 {
                hex_digit(bytes[i / 2] as int / 16)
            } else {
                hex_digit(bytes[i / 2] as int % 16)
            },
    )
}

fn hex_char(n: u8, base: u8) -> (r: char)
    requires
        n < 16,
        base == 97 || base == 65,
    ensures
        base == 97 ==> r == hex_digit(n as int),
        base == 65 ==> r == hex_digit_capital(n as int),
{
    if n < 10 {
        (48u8 + n) as char
    } else {
        (base + (n - 10)) as char
    }
}

/// The bytes in small hexadecimal digits.
pub fn hex_encode(bytes: &[u8]) -> (r: String)
    ensures
        r@ == hex_of(bytes@),
        r@.len() == 2 * bytes@.len(),
{
    let mut out = String::new();
    let mut i: usize = 0;
    assert(hex_of(bytes@.take(0)) =~= Seq::<char>::empty());
    while i < bytes.len()
        invariant
            i <= bytes@.len(),
            out@ == hex_of(bytes@.take(i as int)),
        decreases bytes@.len() - i,
    {
        let b: u8 = bytes[i];
        out.push(hex_char(b / 16, 97));
        out.push(hex_char(b % 16, 97));
        assert(out@ =~= hex_of(bytes@.take(i + 1)));
        i += 1;
    }
    assert(bytes@.take(bytes@.len() as int) =~= bytes@);
    out
}

/// Different bytes have different hexadecimal text.
pub proof fn law_hex_is_injective(a: Seq<u8>, b: Seq<u8>)
    requires
        hex_of(a) == hex_of(b),
    ensures
        a == b,
{
    assert(a.len() == b.len()) by {
        assert(hex_of(a).len() == 2 * a.len());
        assert(hex_of(b).len() == 2 * b.len());
    }
    assert forall|i: int| 0 <= i < a.len() implies a[i] == b[i] by {
        assert(hex_of(a)[2 * i] == hex_of(b)[2 * i]);
        assert(hex_of(a)[2 * i + 1] == hex_of(b)[2 * i + 1]);
        assert(hex_of(a)[2 * i] == hex_digit(a[i] as int / 16));
        assert(hex_of(b)[2 * i] == hex_digit(b[i] as int / 16));
        assert(hex_of(a)[2 * i + 1] == hex_digit(a[i] as int % 16));
        assert(hex_of(b)[2 * i + 1] == hex_digit(b[i] as int % 16));
    }
    assert(a =~= b);
}

/// The SHA-256 digest of `data` in small hexadecimal digits.
pub fn sha256_hex(data: &[u8]) -> (r: String)
    ensures
        r@ == hex_of(sha256_of(data@)),
        r@.len() == 64,
{
    let digest = sha256_digest(data);
    hex_encode(digest.as_slice())
}

/// The characters of the digest text of the UTF-8 bytes of `text`.
pub open spec fn text_digest(text: Seq<char>) -> Seq<char> {
    hex_of(sha256_of(encode_utf8(text)))
}

/// The SHA-256 digest of the UTF-8 bytes of `text` in hexadecimal digits.
pub fn sha256_text(text: &str) -> (r: String)
    ensures
        r@ == text_digest(text@),
        r@.len() == 64,
{
    sha256_hex(text.as_bytes())
}

// ---------------------------------------------------------------------------
// URI paths
// ---------------------------------------------------------------------------

/// A byte that a URI path carries as it is.
pub open spec fn is_path_byte(b: u8) -> bool {
    ||| b == 0x2f  // '/'
    ||| b == 0x2d  // '-'
    ||| b == 0x5f  // '_'
    ||| b == 0x2e  // '.'
    ||| b == 0x7e  // '~'
    ||| 0x41 <= b <= 0x5a  // 'A'..='Z'
    ||| 0x61 <= b <= 0x7a  // 'a'..='z'
    ||| 0x30 <= b <= 0x39  // '0'..='9'
}

/// One byte of a URI path: itself, or `%` and two capital hexadecimal digits.
pub open spec fn encoded_byte(b: u8) -> Seq<char> {
    if is_path_byte(b) {
        seq![b as char]
    } else {
        seq!['%', hex_digit_capital(b as int / 16), hex_digit_capital(b as int % 16)]
    }
}

/// The bytes of a path, each in its URI form.
pub open spec fn encoded_path(bytes: Seq<u8>) -> Seq<char>
    decreases bytes.len(),
{
    if bytes.len() == 0 {
        Seq::empty()
    } else {
        encoded_path(bytes.drop_last()) + encoded_byte(bytes.last())
    }
}

/// The UTF-8 bytes of `path` in URI form, with `/` kept.
pub fn uri_encode_path(path: &str) -> (r: String)
    ensures
        r@ == encoded_path(encode_utf8(path@)),
{
    let bytes = path.as_bytes();
    let mut out = String::new();
    let mut i: usize = 0;
    while i < bytes.len()
        invariant
            bytes@ == encode_utf8(path@),
            i <= bytes@.len(),
            out@ == encoded_path(bytes@.take(i as int)),
        decreases bytes@.len() - i,
    {
        let b: u8 = bytes[i];
        let ghost prior = out@;
        if b == 0x2f || b == 0x2d || b == 0x5f || b == 0x2e || b == 0x7e || (0x41 <= b && b
            <= 0x5a) || (0x61 <= b && b <= 0x7a) || (0x30 <= b && b <= 0x39) {
            out.push(b as char);
        } else {
            out.push('%');
            out.push(hex_char(b / 16, 65));
            out.push(hex_char(b % 16, 65));
        }
        proof {
            assert(out@ =~= prior + encoded_byte(b));
            assert(bytes@.take(i + 1).drop_last() =~= bytes@.take(i as int));
        }
        i += 1;
    }
    assert(bytes@.take(bytes@.len() as int) =~= bytes@);
    out
}

/// The value of a capital hexadecimal digit.
pub open spec fn hex_value(c: char) -> int {
    if '0' <= c <= '9' {
        c as u32 - '0' as u32
    } else {
        c as u32 - 'A' as u32 + 10
    }
}

/// The bytes that a path in URI form stands for.
pub open spec fn decoded_path(text: Seq<char>) -> Seq<u8>
    decreases text.len(),
{
    if text.len() == 0 {
        Seq::empty()
    } else if text[0] == '%' && text.len() >= 3 {
        seq![(hex_value(text[1]) * 16 + hex_value(text[2])) as u8] + decoded_path(text.skip(3))
    } else {
        seq![text[0] as u8] + decoded_path(text.drop_first())
    }
}

/// A character that stands for itself in a path in URI form.
pub open spec fn is_path_char(c: char) -> bool {
    ||| 'A' <= c <= 'Z'
    ||| 'a' <= c <= 'z'
    ||| '0' <= c <= '9'
    ||| c == '/'
    ||| c == '-'
    ||| c == '_'
    ||| c == '.'
    ||| c == '~'
}

pub open spec fn is_capital_hex_digit(c: char) -> bool {
    '0' <= c <= '9' || 'A' <= c <= 'F'
}

/// The text is in URI form: characters that stand for themselves, and `%` before
/// two capital hexadecimal digits.
pub open spec fn is_uri_form(text: Seq<char>) -> bool
    decreases text.len(),
{
    if text.len() == 0 {
        true
    } else if text[0] == '%' {
        &&& text.len() >= 3
        &&& is_capital_hex_digit(text[1])
        &&& is_capital_hex_digit(text[2])
        &&& is_uri_form(text.skip(3))
    } else {
        is_path_char(text[0]) && is_uri_form(text.drop_first())
    }
}

/// The URI form of a path is that of its first part and that of its second.
proof fn lemma_encoded_concat(a: Seq<u8>, b: Seq<u8>)
    ensures
        encoded_path(a + b) == encoded_path(a) + encoded_path(b),
    decreases b.len(),
{
    if b.len() == 0 {
        assert(a + b =~= a);
        assert(encoded_path(a) + encoded_path(b) =~= encoded_path(a));
    } else {
        lemma_encoded_concat(a, b.drop_last());
        assert((a + b).drop_last() =~= a + b.drop_last());
        assert(encoded_path(a) + encoded_path(b) =~= (encoded_path(a) + encoded_path(b.drop_last()))
            + encoded_byte(b.last()));
    }
}

/// The UTF-8 form of a text is that of its first part and that of its second.
proof fn lemma_utf8_concat(a: Seq<char>, b: Seq<char>)
    ensures
        encode_utf8(a + b) == encode_utf8(a) + encode_utf8(b),
    decreases a.len(),
{
    if a.len() == 0 {
        assert(a + b =~= b);
        assert(encode_utf8(a) + encode_utf8(b) =~= encode_utf8(b));
    } else {
        lemma_utf8_concat(a.drop_first(), b);
        assert((a + b).drop_first() =~= a.drop_first() + b);
        assert(encode_utf8(a + b) =~= encode_utf8(a) + encode_utf8(b));
    }
}

/// The first byte of a path in URI form, and the rest.
proof fn lemma_encoded_first(bytes: Seq<u8>)
    requires
        bytes.len() > 0,
    ensures
        encoded_path(bytes) == encoded_byte(bytes[0]) + encoded_path(bytes.drop_first()),
{
    let one = seq![bytes[0]];
    assert(one + bytes.drop_first() =~= bytes);
    lemma_encoded_concat(one, bytes.drop_first());
    assert(one.drop_last() =~= Seq::<u8>::empty());
    assert(encoded_path(one.drop_last()) =~= Seq::<char>::empty());
    assert(encoded_path(one) =~= encoded_byte(bytes[0]));
}

/// Paths are encoded part by part: the URI form of two texts in a row is the one
/// form after the other.
pub proof fn law_path_parts_are_encoded_alone(a: Seq<char>, b: Seq<char>)
    ensures
        encoded_path(encode_utf8(a + b)) == encoded_path(encode_utf8(a)) + encoded_path(
            encode_utf8(b),
        ),
{
    lemma_utf8_concat(a, b);
    lemma_encoded_concat(encode_utf8(a), encode_utf8(b));
}

/// A path in URI form holds only letters, digits, `/`, `-`, `_`, `.`, `~`, and `%`
/// before two capital hexadecimal digits; and it can be read back.
pub proof fn law_encoded_paths_are_read_back(bytes: Seq<u8>)
    ensures
        is_uri_form(encoded_path(bytes)),
        decoded_path(encoded_path(bytes)) == bytes,
    decreases bytes.len(),
{
    if bytes.len() == 0 {
        assert(decoded_path(encoded_path(bytes)) =~= bytes);
    } else {
        let b = bytes[0];
        let rest = bytes.drop_first();
        let text = encoded_path(bytes);
        lemma_encoded_first(bytes);
        law_encoded_paths_are_read_back(rest);
        if is_path_byte(b) {
            assert(text.drop_first() =~= encoded_path(rest));
        } else {
            assert(text.skip(3) =~= encoded_path(rest));
            let high = b as int / 16;
            let low = b as int % 16;
            assert(hex_value(hex_digit_capital(high)) == high);
            assert(hex_value(hex_digit_capital(low)) == low);
            assert(high * 16 + low == b);
        }
        assert(decoded_path(text) =~= seq![b] + rest);
        assert(seq![b] + rest =~= bytes);
    }
}

/// A path of characters that stand for themselves is its own URI form.
pub proof fn law_plain_paths_are_kept(path: Seq<char>)
    requires
        forall|i: int| 0 <= i < path.len() ==> is_path_char(#[trigger] path[i]),
    ensures
        encoded_path(encode_utf8(path)) == path,
    decreases path.len(),
{
    if path.len() > 0 {
        let rest = path.drop_first();
        assert forall|i: int| 0 <= i < rest.len() implies is_path_char(#[trigger] rest[i]) by {
            assert(rest[i] == path[i + 1]);
        }
        law_plain_paths_are_kept(rest);
        let c = path[0];
        let bytes = encode_utf8(path);
        assert(is_ascii_chars(path));
        assert(is_ascii_chars(rest));
        is_ascii_chars_encode_utf8(path);
        is_ascii_chars_encode_utf8(rest);
        assert(bytes.drop_first() =~= encode_utf8(rest)) by {
            assert forall|i: int| 0 <= i < rest.len() implies #[trigger] bytes.drop_first()[i]
                == encode_utf8(rest)[i] by {
                assert(rest[i] == path[i + 1]);
            }
        }
        lemma_encoded_first(bytes);
        assert(encoded_path(bytes) =~= seq![c] + rest);
        assert(seq![c] + rest =~= path);
    } else {
        assert(encoded_path(encode_utf8(path)) =~= path);
    }
}

/// A path in URI form has no line break in it.
pub proof fn lemma_uri_form_has_no_line_break(text: Seq<char>)
    requires
        is_uri_form(text),
    ensures
        !text.contains('\n'),
    decreases text.len(),
{
    if text.contains('\n') {
        let i = choose|i: int| 0 <= i < text.len() && text[i] == '\n';
        if text[0] == '%' {
            if i >= 3 {
                lemma_uri_form_has_no_line_break(text.skip(3));
                assert(text.skip(3)[i - 3] == '\n');
            }
        } else if i > 0 {
            lemma_uri_form_has_no_line_break(text.drop_first());
            assert(text.drop_first()[i - 1] == '\n');
        }
    }
}

/// Hexadecimal text holds digits and the letters from `a` to `f` alone, two of them
/// for each byte.
pub proof fn law_hex_text_is_hexadecimal(bytes: Seq<u8>, i: int)
    requires
        0 <= i < 2 * bytes.len(),
    ensures
        hex_of(bytes).len() == 2 * bytes.len(),
        '0' <= hex_of(bytes)[i] <= '9' || 'a' <= hex_of(bytes)[i] <= 'f',
{
    let b = bytes[i / 2] as int;
    assert(0 <= b / 16 < 16);
    assert(0 <= b % 16 < 16);
}

/// The hexadecimal text of two byte strings in a row is the one text after the other,
/// and that of one byte says its value.
pub proof fn law_hex_text_is_made_byte_by_byte(a: Seq<u8>, b: Seq<u8>, x: u8)
    ensures
        hex_of(a + b) == hex_of(a) + hex_of(b),
        hex_of(seq![x]).len() == 2,
        x < 10 ==> hex_of(seq![x]) == seq!['0', (48 + x) as char],
        x == 255 ==> hex_of(seq![x]) == seq!['f', 'f'],
        x == 160 ==> hex_of(seq![x]) == seq!['a', '0'],
{
    let ab = a + b;
    assert forall|i: int| 0 <= i < 2 * ab.len() implies hex_of(ab)[i] == (hex_of(a) + hex_of(
        b,
    ))[i] by {
        if i < 2 * a.len() {
            assert(ab[i / 2] == a[i / 2]);
        } else {
            let k = i - 2 * a.len();
            assert(i / 2 == a.len() + k / 2);
            assert(i % 2 == k % 2);
            assert(ab[i / 2] == b[k / 2]);
        }
    }
    assert(hex_of(ab) =~= hex_of(a) + hex_of(b));
    let one = seq![x];
    assert(hex_of(one)[0] == hex_digit(x as int / 16));
    assert(hex_of(one)[1] == hex_digit(x as int % 16));
    if x < 10 {
        assert(hex_of(one) =~= seq!['0', (48 + x) as char]);
    }
    if x == 255 {
        assert(hex_of(one) =~= seq!['f', 'f']);
    }
    if x == 160 {
        assert(hex_of(one) =~= seq!['a', '0']);
    }
}

} // verus!
