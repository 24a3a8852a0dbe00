//! Client-visible handles.
//!
//! A handle packs a service signature (high 32 bits) and a usage signature
//! (low 32 bits) into one 64-bit token. Clients see it as a decimal string.

use vstd::prelude::*;

verus! {

/// Identifies one loaded service instance. Never zero for a live service.
pub type ServiceSig = u32;

/// Identifies one registration of a service by one client.
pub type UsageSig = u32;

/// The handle value that no registration ever receives.
pub const INVALID_HANDLE: u64 = 0;

/// The handle made of `service` in the high half and `usage` in the low half.
pub open spec fn handle_of(service: ServiceSig, usage: UsageSig) -> u64 {
    (service as int * 0x1_0000_0000 + usage as int) as u64
}

/// The high 32 bits of a handle.
pub open spec fn service_part(handle: u64) -> ServiceSig {
    (handle as int / 0x1_0000_0000) as u32
}

/// The low 32 bits of a handle.
pub open spec fn usage_part(handle: u64) -> UsageSig {
    (handle as int % 0x1_0000_0000) as u32
}

/// Packs two signatures into a handle.
pub fn pack(service: ServiceSig, usage: UsageSig) -> (handle: u64)
    ensures
        handle == handle_of(service, usage),
        service_part(handle) == service,
        usage_part(handle) == usage,
{
    let high: u64 = service as u64;
    let low: u64 = usage as u64;
    assert(((high << 32) | low) == high * 0x1_0000_0000 + low) by (bit_vector)
        requires
            high < 0x1_0000_0000,
            low < 0x1_0000_0000,
    ;
    (high << 32) | low
}

/// Splits a handle into its service and usage signatures.
pub fn split(handle: u64) -> (parts: (ServiceSig, UsageSig))
    ensures
        parts.0 == service_part(handle),
        parts.1 == usage_part(handle),
        handle_of(parts.0, parts.1) == handle,
{
    assert((handle >> 32) == handle / 0x1_0000_0000) by (bit_vector);
    assert((handle & 0xffff_ffff) == handle % 0x1_0000_0000) by (bit_vector);
    let high: u64 = handle >> 32;
    let low: u64 = handle & 0xffff_ffff;
    (high as u32, low as u32)
}

/// Splitting a packed handle gives back both signatures.
pub proof fn lemma_split_of_pack(service: ServiceSig, usage: UsageSig)
    ensures
        service_part(handle_of(service, usage)) == service,
        usage_part(handle_of(service, usage)) == usage,
{
}

/// Packing the two parts of a handle gives back the handle.
pub proof fn lemma_pack_of_split(handle: u64)
    ensures
        handle_of(service_part(handle), usage_part(handle)) == handle,
{
}

/// A handle is the invalid handle only when both of its parts are zero, so
/// a handle with a non-zero service signature is never invalid.
pub proof fn lemma_invalid_handle_parts(handle: u64)
    ensures
        handle == INVALID_HANDLE <==> service_part(handle) == 0 && usage_part(handle) == 0,
{
}

/// The character that writes the decimal digit `d`.
pub open spec fn digit_char(d: nat) -> char
    recommends
        d < 10,
{
    ((48 + d) as u8) as char
}

/// Whether `c` is one of the ten decimal digits.
pub open spec fn is_digit(c: char) -> bool {
    '0' <= c <= '9'
}

/// The value of the decimal digit `c`.
pub open spec fn digit_value(c: char) -> nat
    recommends
        is_digit(c),
{
    (c as u32 - 48) as nat
}

/// The decimal numeral of `n`, without sign or leading zeros.
pub open spec fn decimal(n: nat) -> Seq<char>
    decreases n,
{
    if n < 10 {
        seq![digit_char(n)]
    } else {
        decimal(n / 10).push(digit_char(n % 10))
    }
}

/// Whether every character of `s` is a decimal digit.
pub open spec fn all_digits(s: Seq<char>) -> bool {
    forall|i: int| 0 <= i < s.len() ==> is_digit(#[trigger] s[i])
}

/// The number written by the digits of `s`, most significant first.
pub open spec fn digits_value(s: Seq<char>) -> nat
    decreases s.len(),
{
    if s.len() == 0 {
        0
    } else {
        digits_value(s.drop_last()) * 10 + digit_value(s.last())
    }
}

/// The digits of a handle string: what follows one optional leading `+`.
pub open spec fn numeral_body(s: Seq<char>) -> Seq<char> {
    if s.len() > 0 && s[0] == '+' {
        s.skip(1)
    } else {
        s
    }
}

/// The handle that the string `s` denotes: one optional `+`, then at least
/// one decimal digit, the whole not above `u64::MAX`. Anything else denotes
/// no handle.
pub open spec fn parse_decimal(s: Seq<char>) -> Option<u64> {
    let body = numeral_body(s);
    if body.len() > 0 && all_digits(body) && digits_value(body) <= u64::MAX {
        Some(digits_value(body) as u64)
    } else {
        None
    }
}

/// Reading more digits never makes the number smaller.
proof fn lemma_digits_value_prefix(s: Seq<char>, k: int)
    requires
        0 <= k <= s.len(),
    ensures
        digits_value(s.take(k)) <= digits_value(s),
    decreases s.len() - k,
{
    if k < s.len() {
        lemma_digits_value_prefix(s, k + 1);
        assert(s.take(k + 1).drop_last() =~= s.take(k));
    } else {
        assert(s.take(k) =~= s);
    }
}

/// The numeral of `n` consists of digits that write `n`.
proof fn lemma_decimal_digits(n: nat)
    ensures
        decimal(n).len() > 0,
        all_digits(decimal(n)),
        digits_value(decimal(n)) == n,
        decimal(n)[0] != '+',
    decreases n,
{
    if n < 10 {
        assert(decimal(n).drop_last() =~= Seq::<char>::empty());
        assert(digits_value(decimal(n).drop_last()) == 0);
    } else {
        lemma_decimal_digits(n / 10);
        assert(decimal(n).drop_last() =~= decimal(n / 10));
    }
}

/// Parsing the decimal numeral of a handle gives back the handle.
pub proof fn lemma_parse_of_decimal(handle: u64)
    ensures
        parse_decimal(decimal(handle as nat)) == Some(handle),
{
    lemma_decimal_digits(handle as nat);
}

/// The one-character string of a decimal digit.
fn digit_str(d: u64) -> (text: &'static str)
    requires
        d < 10,
    ensures
        text@ == seq![digit_char(d as nat)],
{
    proof {
        reveal_strlit("0");
        reveal_strlit("1");
        reveal_strlit("2");
        reveal_strlit("3");
        reveal_strlit("4");
        reveal_strlit("5");
        reveal_strlit("6");
        reveal_strlit("7");
        reveal_strlit("8");
        reveal_strlit("9");
    }
    let text = if d == 0 {
        "0"
    } else if d == 1 {
        "1"
    } else if d == 2 {
        "2"
    } else if d == 3 {
        "3"
    } else if d == 4 {
        "4"
    } else if d == 5 {
        "5"
    } else if d == 6 {
        "6"
    } else if d == 7 {
        "7"
    } else if d == 8 {
        "8"
    } else {
        "9"
    };
    assert(text@ =~= seq![digit_char(d as nat)]);
    text
}

/// Appends the decimal numeral of `n` to `out`.
fn push_decimal(n: u64, out: &mut String)
    ensures
        final(out)@ == old(out)@ + decimal(n as nat),
    decreases n,
{
    if n >= 10 {
        push_decimal(n / 10, out);
    }
    out.append(digit_str(n % 10));
    assert(out@ =~= old(out)@ + decimal(n as nat));
}

/// Writes a number as its decimal numeral.
pub fn format_decimal(n: u64) -> (text: String)
    ensures
        text@ == decimal(n as nat),
{
    let mut text = String::new();
    push_decimal(n, &mut text);
    assert(text@ =~= decimal(n as nat));
    text
}

/// Writes a handle as the decimal string that clients see.
pub fn format_handle(handle: u64) -> (text: String)
    ensures
        text@ == decimal(handle as nat),
        parse_decimal(text@) == Some(handle),
{
    proof {
        lemma_parse_of_decimal(handle);
    }
    format_decimal(handle)
}

/// Reads a handle from the decimal string that a client sent.
pub fn parse_handle(text: &str) -> (handle: Option<u64>)
    ensures
        handle == parse_decimal(text@),
{
    let ghost body = numeral_body(text@);
    if !text.is_ascii() {
        proof {
            let j = choose|j: int| 0 <= j < text@.len() && !('\0' <= #[trigger] text@[j] && text@[j]
                <= '\u{7f}');
            if body.len() > 0 && all_digits(body) {
                if text@.len() > 0 && text@[0] == '+' {
                    assert(j > 0);
                    assert(is_digit(body[j - 1]));
                } else {
                    assert(is_digit(body[j]));
                }
            }
        }
        return None;
    }
    let bytes = text.as_bytes();
    proof {
        vstd::string::is_ascii_spec_bytes(text);
    }
    let n = bytes.len();
    let start: usize = if n > 0 && bytes[0] == 43 {
        1
    } else {
        0
    };
    assert(body =~= text@.skip(start as int));
    if start >= n {
        return None;
    }
    let mut acc: u64 = 0;
    let mut i: usize = start;
    while i < n
        invariant
            start <= i <= n,
            n == text@.len(),
            bytes@ == Seq::new(text@.len(), |k: int| text@[k] as u8),
            vstd::string::is_ascii(text),
            body == text@.skip(start as int),
            body == numeral_body(text@),
            all_digits(body.take(i - start)),
            acc == digits_value(body.take(i - start)),
        decreases n - i,
    {
        let b = bytes[i];
        let ghost prefix = body.take(i - start);
        let ghost next = body.take(i - start + 1);
        proof {
            assert(next.drop_last() =~= prefix);
            assert(next.last() == text@[i as int]);
            assert('\0' <= text@[i as int] <= '\u{7f}');
        }
        if b < 48 || b > 57 {
            assert(!is_digit(body[i - start]));
            return None;
        }
        let d = (b - 48) as u64;
        let grown = match acc.checked_mul(10) {
            Some(tens) => tens.checked_add(d),
            None => None,
        };
        match grown {
            Some(value) => {
                acc = value;
            },
            None => {
                proof {
                    lemma_digits_value_prefix(body, i - start + 1);
                }
                return None;
            },
        }
        i = i + 1;
        assert(all_digits(body.take(i - start))) by {
            assert forall|k: int| 0 <= k < next.len() implies is_digit(#[trigger] next[k]) by {
                if k < prefix.len() {
                    assert(prefix[k] == next[k]);
                }
            }
        }
    }
    assert(body.take(n - start) =~= body);
    Some(acc)
}

} // verus!
