//! Framing and encoding of PowerShell scripts for `-EncodedCommand`.
use vstd::prelude::*;
use crate::text::chars_of;
use base64::Engine;

verus! {

broadcast use vstd::string::group_string_axioms;

/// What stands before the script: progress output off, UTF-8 console output,
/// and the start of a `try` block around a script block.
pub open spec fn script_prologue() -> Seq<char> {
    "$ProgressPreference = 'SilentlyContinue'\n[Console]::OutputEncoding = [System.Text.UTF8Encoding]::new($false)\n$OutputEncoding = [Console]::OutputEncoding\ntry {\n    & {\n"@
}

/// What stands after the script: a `catch` that writes the error as plain
/// text to standard error and exits with status 1.
pub open spec fn script_epilogue() -> Seq<char> {
    "\n    }\n} catch {\n    [Console]::Error.WriteLine(($_ | Out-String).Trim())\n    exit 1\n}\n"@
}

/// Wraps a script so that it runs quietly and reports failures as plain text.
pub fn prepare_powershell_script(script: &str) -> (out: String)
    ensures
        out@ == script_prologue() + script@ + script_epilogue(),
{
    let mut out = String::from_str(
        "$ProgressPreference = 'SilentlyContinue'\n[Console]::OutputEncoding = [System.Text.UTF8Encoding]::new($false)\n$OutputEncoding = [Console]::OutputEncoding\ntry {\n    & {\n",
    );
    out.append(script);
    out.append(
        "\n    }\n} catch {\n    [Console]::Error.WriteLine(($_ | Out-String).Trim())\n    exit 1\n}\n",
    );
    out
}

/// The UTF-16 code units of one character.
pub open spec fn utf16_units(c: char) -> Seq<int> {
    let v = (c as u32) as int;
    if v < 0x10000 {
        seq![v]
    } else {
        seq![0xD800 + (v - 0x10000) / 0x400, 0xDC00 + (v - 0x10000) % 0x400]
    }
}

/// Little-endian bytes of a sequence of 16-bit units.
pub open spec fn le_bytes(units: Seq<int>) -> Seq<u8>
    decreases units.len(),
{
    if units.len() == 0 {
        Seq::<u8>::empty()
    } else {
        le_bytes(units.drop_last()) + seq![(units.last() % 256) as u8, (units.last() / 256) as u8]
    }
}

/// `s` encoded as UTF-16, little endian.
pub open spec fn utf16le(s: Seq<char>) -> Seq<u8>
    decreases s.len(),
{
    if s.len() == 0 {
        Seq::<u8>::empty()
    } else {
        utf16le(s.drop_last()) + le_bytes(utf16_units(s.last()))
    }
}

proof fn lemma_le_bytes_one(x: int)
    ensures
        le_bytes(seq![x]) == seq![(x % 256) as u8, (x / 256) as u8],
{
    assert(seq![x].drop_last() =~= Seq::<int>::empty());
    assert(le_bytes(Seq::<int>::empty()) == Seq::<u8>::empty());
    assert(le_bytes(seq![x]) =~= seq![(x % 256) as u8, (x / 256) as u8]);
}

proof fn lemma_le_bytes_len(units: Seq<int>)
    ensures
        le_bytes(units).len() == 2 * units.len(),
    decreases units.len(),
{
    if units.len() > 0 {
        lemma_le_bytes_len(units.drop_last());
    }
}

proof fn lemma_utf16le_len(s: Seq<char>)
    ensures
        utf16le(s).len() <= 4 * s.len(),
    decreases s.len(),
{
    if s.len() > 0 {
        lemma_utf16le_len(s.drop_last());
        lemma_le_bytes_len(utf16_units(s.last()));
    }
}

fn push_unit(out: &mut Vec<u8>, unit: u32)
    requires
        unit < 0x10000,
    ensures
        final(out)@ == old(out)@ + seq![(unit % 256) as u8, (unit / 256) as u8],
{
    out.push((unit % 256) as u8);
    out.push((unit / 256) as u8);
}

/// The UTF-16LE bytes of `s`.
pub fn utf16le_bytes(s: &str) -> (out: Vec<u8>)
    ensures
        out@ == utf16le(s@),
{
    let cs = chars_of(s);
    let mut out: Vec<u8> = Vec::new();
    let n = cs.len();
    let mut i: usize = 0;
    assert(cs@.take(0) =~= Seq::<char>::empty());
    while i < n
        invariant
            n == cs@.len(),
            i <= n,
            out@ == utf16le(cs@.take(i as int)),
        decreases n - i,
    {
        let c = cs[i];
        let v: u32 = c as u32;
        proof {
            vstd::utf8::char_is_scalar(c);
        }
        assert(v <= 0x10FFFF);
        assert(cs@.take(i + 1).drop_last() =~= cs@.take(i as int));
        if v < 0x10000 {
            push_unit(&mut out, v);
            assert(utf16_units(c) =~= seq![v as int]);
            proof {
                lemma_le_bytes_one(v as int);
            }
        } else {
            let w: u32 = v - 0x10000;
            let hi: u32 = 0xD800 + w / 0x400;
            let lo: u32 = 0xDC00 + w % 0x400;
            push_unit(&mut out, hi);
            push_unit(&mut out, lo);
            let ghost u = seq![hi as int, lo as int];
            assert(utf16_units(c) =~= u);
            assert(u.drop_last() =~= seq![hi as int]);
            proof {
                lemma_le_bytes_one(hi as int);
            }
            assert(le_bytes(u) == le_bytes(seq![hi as int]) + seq![
                (lo as int % 256) as u8,
                (lo as int / 256) as u8,
            ]);
        }
        i += 1;
    }
    assert(cs@.take(n as int) =~= cs@);
    out
}

/// The character of a six-bit value in the standard Base64 alphabet
/// (`A`–`Z`, `a`–`z`, `0`–`9`, `+`, `/`).
pub open spec fn base64_digit(v: int) -> char {
    if v < 26 {
        (65 + v) as char
    } else if v < 52 {
        (97 + v - 26) as char
    } else if v < 62 {
        (48 + v - 52) as char
    } else if v == 62 {
        '+'
    } else {
        '/'
    }
}

/// Padded standard Base64 (RFC 4648, section 4): each group of three bytes
/// becomes four characters; a final group of one or two bytes is padded
/// with `=`.
pub open spec fn base64_standard(b: Seq<u8>) -> Seq<char>
    decreases b.len(),
{
    if b.len() == 0 {
        Seq::<char>::empty()
    } else if b.len() == 1 {
        seq![base64_digit((b[0] as int) / 4), base64_digit(((b[0] as int) % 4) * 16), '=', '=']
    } else if b.len() == 2 {
        seq![
            base64_digit((b[0] as int) / 4),
            base64_digit(((b[0] as int) % 4) * 16 + (b[1] as int) / 16),
            base64_digit(((b[1] as int) % 16) * 4),
            '=',
        ]
    } else {
        seq![
            base64_digit((b[0] as int) / 4),
            base64_digit(((b[0] as int) % 4) * 16 + (b[1] as int) / 16),
            base64_digit(((b[1] as int) % 16) * 4 + (b[2] as int) / 64),
            base64_digit((b[2] as int) % 64),
        ] + base64_standard(b.skip(3))
    }
}

/// Encodes bytes with `base64::engine::general_purpose::STANDARD.encode`,
/// the padded standard Base64 of RFC 4648. The length bound keeps the
/// crate's size computation, which panics on overflow, within `usize`.
#[verifier::external_body]
fn base64_encode(bytes: &[u8]) -> (out: String)
    requires
        4 * ((bytes@.len() + 2) / 3) <= usize::MAX,
    ensures
        out@ == base64_standard(bytes@),
{
    base64::engine::general_purpose::STANDARD.encode(bytes)
}

/// The argument of PowerShell's `-EncodedCommand` for `script`: its
/// UTF-16LE bytes in Base64.
pub fn encode_powershell(script: &str) -> (out: String)
    requires
        script@.len() <= usize::MAX / 8,
    ensures
        out@ == base64_standard(utf16le(script@)),
{
    let bytes = utf16le_bytes(script);
    proof {
        lemma_utf16le_len(script@);
    }
    base64_encode(bytes.as_slice())
}

/// The `-EncodedCommand` argument for the script `A` is `QQA=`: the bytes
/// `41 00` in Base64.
pub proof fn law_encoded_command_of_a()
    ensures
        base64_standard(utf16le("A"@)) == "QQA="@,
{
    reveal_strlit("A");
    reveal_strlit("QQA=");
    let s = "A"@;
    assert(s.drop_last() =~= Seq::<char>::empty());
    assert(('A' as u32) == 65);
    lemma_le_bytes_one(65);
    assert(s.len() == 1 && s[0] == 'A' && s.last() == 'A');
    assert(utf16_units('A') =~= seq![65int]);
    assert(utf16le(Seq::<char>::empty()) == Seq::<u8>::empty());
    assert(((65int % 256) as u8) == 65u8 && ((65int / 256) as u8) == 0u8);
    assert(le_bytes(utf16_units(s.last())) =~= seq![65u8, 0u8]);
    assert(utf16le(s) =~= seq![65u8, 0u8]);
    assert(base64_standard(seq![65u8, 0u8]) =~= seq!['Q', 'Q', 'A', '=']);
}

/// UTF-16LE encodes character by character: the bytes of a concatenation
/// are the bytes of its parts, one after the other.
pub proof fn law_utf16le_concatenation(a: Seq<char>, b: Seq<char>)
    ensures
        utf16le(a + b) == utf16le(a) + utf16le(b),
    decreases b.len(),
{
    if b.len() == 0 {
        assert(a + b =~= a);
        assert(utf16le(a) + utf16le(b) =~= utf16le(a));
    } else {
        law_utf16le_concatenation(a, b.drop_last());
        assert((a + b).drop_last() =~= a + b.drop_last());
        assert((a + b).last() == b.last());
        assert(utf16le(a + b) =~= utf16le(a) + utf16le(b));
    }
}

/// Every ASCII character becomes two bytes: its code, then zero.
pub proof fn law_utf16le_ascii(s: Seq<char>)
    requires
        forall|i: int| 0 <= i < s.len() ==> (#[trigger] s[i] as u32) < 128,
    ensures
        utf16le(s).len() == 2 * s.len(),
        forall|i: int|
            0 <= i < s.len() ==> (utf16le(s)[2 * i] as u32) == (#[trigger] s[i] as u32) && utf16le(
                s,
            )[2 * i + 1] == 0,
    decreases s.len(),
{
    if s.len() > 0 {
        let init = s.drop_last();
        assert forall|i: int| 0 <= i < init.len() implies (#[trigger] init[i] as u32) < 128 by {
            assert(init[i] == s[i]);
        }
        law_utf16le_ascii(init);
        let c = s.last();
        assert(c == s[s.len() - 1]);
        let v = (c as u32) as int;
        assert(utf16_units(c) == seq![v]);
        lemma_le_bytes_one(v);
        assert(((v % 256) as u8) as u32 == c as u32);
        assert(((v / 256) as u8) == 0);
        assert forall|i: int| 0 <= i < s.len() implies (utf16le(s)[2 * i] as u32) == (
        #[trigger] s[i] as u32) && utf16le(s)[2 * i + 1] == 0 by {
            if i < s.len() - 1 {
                assert(init[i] == s[i]);
            }
        }
    }
}

/// Padded Base64 turns every started group of three bytes into four
/// characters.
pub proof fn law_base64_length(b: Seq<u8>)
    ensures
        base64_standard(b).len() == 4 * ((b.len() + 2) / 3),
    decreases b.len(),
{
    if b.len() >= 3 {
        law_base64_length(b.skip(3));
    }
}

} // verus!
