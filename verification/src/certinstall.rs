//! Turning a certificate into a registry-import script: the certificate is
//! normalized to DER, fingerprinted, re-encoded as a hex blob wrapped to the
//! registry line width, framed in registry-editor text, and finally encoded
//! as UTF-16 little-endian with a byte-order mark — the one-shot utility that
//! imports the root certificate into a Wine prefix's trust store.

use vstd::prelude::*;
use crate::strutil::push_char;

verus! {

/// What openssl makes of the given certificate bytes: the DER encoding of the
/// certificate they hold (PEM accepted first, raw DER as fallback), or
/// nothing where they parse as neither. A function of the bytes alone.
pub uninterp spec fn cert_der_of(b: Seq<u8>) -> Option<Seq<u8>>;

/// The SHA-1 digest openssl computes over the given bytes: a function of the
/// bytes alone.
pub uninterp spec fn sha1_of(b: Seq<u8>) -> Seq<u8>;

/// Relies on openssl's X509::from_pem, X509::from_der and X509::to_der:
/// parses the bytes as a PEM certificate, falling back to DER, and re-encodes
/// the certificate as DER; fails exactly where both parses fail.
#[verifier::external_body]
fn cert_to_der(bytes: &Vec<u8>) -> (r: Option<Vec<u8>>)
    ensures
        r is Some <==> cert_der_of(bytes@) is Some,
        r matches Some(v) ==> Some(v@) == cert_der_of(bytes@),
{
    let x509 = match openssl::x509::X509::from_pem(bytes) {
        Ok(cert) => cert,
        Err(_) => openssl::x509::X509::from_der(bytes).ok()?,
    };
    x509.to_der().ok()
}

/// Relies on openssl::hash::hash with MessageDigest::sha1: the 20-byte SHA-1
/// digest of the input.
#[verifier::external_body]
fn sha1_digest(bytes: &Vec<u8>) -> (r: Option<Vec<u8>>)
    ensures
        r matches Some(v) ==> v@ == sha1_of(bytes@) && v@.len() == 20,
{
    let digest = openssl::hash::hash(openssl::hash::MessageDigest::sha1(), bytes).ok()?;
    Some(digest.to_vec())
}

/// The upper-case hex digit for a value below sixteen.
pub open spec fn spec_nibble_upper(n: u8) -> char {
    if n < 10 {
        (48 + n) as char
    } else {
        (55 + n) as char
    }
}

/// The lower-case hex digit for a value below sixteen.
pub open spec fn spec_nibble_lower(n: u8) -> char {
    if n < 10 {
        (48 + n) as char
    } else {
        (87 + n) as char
    }
}

/// Upper-case hex encoding: two digits per byte, in order.
pub open spec fn spec_hex_upper(b: Seq<u8>) -> Seq<char>
    decreases b.len(),
{
    if b.len() == 0 {
        Seq::empty()
    } else {
        seq![
            spec_nibble_upper(b.first() / 16),
            spec_nibble_upper(b.first() % 16),
        ] + spec_hex_upper(b.drop_first())
    }
}

/// Relies on hex::encode_upper: two upper-case hex digits per input byte, in
/// order.
#[verifier::external_body]
fn hex_upper(b: &Vec<u8>) -> (r: String)
    ensures
        r@ == spec_hex_upper(b@),
{
    hex::encode_upper(b)
}

/// The registry blob form of the bytes: lower-case hex pairs joined by
/// commas.
pub open spec fn spec_hex_pairs(b: Seq<u8>) -> Seq<char>
    decreases b.len(),
{
    if b.len() == 0 {
        Seq::empty()
    } else if b.len() == 1 {
        seq![spec_nibble_lower(b.first() / 16), spec_nibble_lower(b.first() % 16)]
    } else {
        seq![spec_nibble_lower(b.first() / 16), spec_nibble_lower(b.first() % 16), ',']
            + spec_hex_pairs(b.drop_first())
    }
}

/// The lower-case hex digit character for a value below sixteen.
fn nibble_lower(n: u8) -> (r: char)
    requires
        n < 16,
    ensures
        r == spec_nibble_lower(n),
{
    if n < 10 {
        (48 + n) as char
    } else {
        (87 + n) as char
    }
}

/// Encode bytes as comma-separated lower-case hex pairs.
pub fn hex_pairs(b: &Vec<u8>) -> (r: String)
    ensures
        r@ == spec_hex_pairs(b@),
{
    let mut r = String::new();
    let len = b.len();
    let mut i: usize = 0;
    assert(b@.skip(0) =~= b@);
    while i < len
        invariant
            len == b@.len(),
            i <= len,
            spec_hex_pairs(b@) =~= r@ + spec_hex_pairs(b@.skip(i as int)),
        decreases len - i,
    {
        let byte = b[i];
        assert(b@.skip(i as int).first() == byte);
        assert(b@.skip(i as int).drop_first() =~= b@.skip(i + 1));
        push_char(&mut r, nibble_lower(byte / 16));
        push_char(&mut r, nibble_lower(byte % 16));
        if i + 1 < len {
            push_char(&mut r, ',');
        }
        i += 1;
    }
    assert(b@.skip(len as int) =~= Seq::<u8>::empty());
    assert(r@ =~= spec_hex_pairs(b@));
    r
}

/// The continuation separator between wrapped blob lines: a backslash, a line
/// break, and two spaces of indent.
pub open spec fn wrap_sep() -> Seq<char> {
    seq!['\\', '\n', ' ', ' ']
}

/// The blob text wrapped to lines of at most 78 characters, with the
/// continuation separator between lines.
pub open spec fn spec_wrap78(s: Seq<char>) -> Seq<char>
    decreases s.len(),
{
    if s.len() <= 78 {
        s
    } else {
        s.subrange(0, 78) + wrap_sep() + spec_wrap78(s.skip(78))
    }
}

/// Wrap a blob string to 78-character lines joined by the continuation
/// separator.
pub fn wrap78(s: &str) -> (r: String)
    ensures
        r@ == spec_wrap78(s@),
{
    let len = s.unicode_len();
    let mut r = String::new();
    let mut i: usize = 0;
    assert(s@.skip(0) =~= s@);
    while i < len
        invariant
            len == s@.len(),
            i <= len,
            spec_wrap78(s@) =~= r@ + spec_wrap78(s@.skip(i as int)),
        decreases len - i,
    {
        let end = if len - i > 78 {
            i + 78
        } else {
            len
        };
        let ghost prefix = r@;
        let ghost chunk_start = i as int;
        assert(r@ =~= prefix + s@.subrange(chunk_start, chunk_start));
        let mut j = i;
        while j < end
            invariant
                len == s@.len(),
                0 <= chunk_start <= j <= end,
                end <= len,
                r@ == prefix + s@.subrange(chunk_start, j as int),
            decreases end - j,
        {
            push_char(&mut r, s.get_char(j));
            assert(s@.subrange(chunk_start, j + 1) =~= s@.subrange(chunk_start, j as int).push(
                s@[j as int],
            ));
            assert(r@ =~= prefix + s@.subrange(chunk_start, j + 1));
            j += 1;
        }
        if end < len {
            push_char(&mut r, '\\');
            push_char(&mut r, '\n');
            push_char(&mut r, ' ');
            push_char(&mut r, ' ');
            assert(s@.skip(chunk_start).subrange(0, 78) =~= s@.subrange(
                chunk_start,
                chunk_start + 78,
            ));
            assert(s@.skip(chunk_start).skip(78) =~= s@.skip(chunk_start + 78));
            assert(r@ =~= prefix + (s@.subrange(chunk_start, chunk_start + 78) + wrap_sep()));
        } else {
            assert(s@.skip(chunk_start) =~= s@.subrange(chunk_start, len as int));
            assert(s@.skip(len as int) =~= Seq::<char>::empty());
        }
        i = end;
    }
    assert(r@ =~= spec_wrap78(s@));
    r
}

/// The registry-editor text that imports a certificate blob: header, the key
/// named by the upper-case SHA-1 fingerprint, and the wrapped blob value.
pub open spec fn spec_reg_script(sha1_hex: Seq<char>, blob: Seq<char>) -> Seq<char> {
    "Windows Registry Editor Version 5.00\n\n[HKEY_CURRENT_USER\\Software\\Microsoft\\SystemCertificates\\My\\Certificates\\"@
        + sha1_hex + "]\n\n\"Blob\"=hex:"@ + blob + "\n\n\n"@
}

/// Assemble the registry-editor text around the fingerprint and the wrapped
/// blob.
pub fn build_reg_script(sha1_hex: &str, blob: &str) -> (r: String)
    ensures
        r@ == spec_reg_script(sha1_hex@, blob@),
{
    let mut r = String::from_str(
        "Windows Registry Editor Version 5.00\n\n[HKEY_CURRENT_USER\\Software\\Microsoft\\SystemCertificates\\My\\Certificates\\",
    );
    r.append(sha1_hex);
    r.append("]\n\n\"Blob\"=hex:");
    r.append(blob);
    r.append("\n\n\n");
    assert(r@ =~= spec_reg_script(sha1_hex@, blob@));
    r
}

/// Every character of `s` is ASCII.
pub open spec fn all_ascii(s: Seq<char>) -> bool {
    forall|i: int| 0 <= i < s.len() ==> (#[trigger] s[i] as u32) < 128
}

/// The UTF-16 little-endian bytes of an ASCII text: each character becomes
/// its code point byte followed by a zero byte.
pub open spec fn spec_utf16le(s: Seq<char>) -> Seq<u8>
    decreases s.len(),
{
    if s.len() == 0 {
        Seq::empty()
    } else {
        seq![(s.first() as u32) as u8, 0u8] + spec_utf16le(s.drop_first())
    }
}

/// Encode an ASCII text as UTF-16 little-endian prefixed with the byte-order
/// mark, or nothing where the text has a character outside ASCII.
pub fn utf16le_with_bom(s: &str) -> (r: Option<Vec<u8>>)
    ensures
        r is Some <==> all_ascii(s@),
        r matches Some(v) ==> v@ == seq![0xFFu8, 0xFEu8] + spec_utf16le(s@),
{
    let len = s.unicode_len();
    let mut v: Vec<u8> = Vec::new();
    v.push(0xFF);
    v.push(0xFE);
    let mut i: usize = 0;
    assert(s@.skip(0) =~= s@);
    while i < len
        invariant
            len == s@.len(),
            i <= len,
            forall|k: int| 0 <= k < i ==> (#[trigger] s@[k] as u32) < 128,
            seq![0xFFu8, 0xFEu8] + spec_utf16le(s@) =~= v@ + spec_utf16le(s@.skip(i as int)),
        decreases len - i,
    {
        let c = s.get_char(i);
        if (c as u32) >= 128 {
            assert((s@[i as int] as u32) >= 128);
            return None;
        }
        assert(s@.skip(i as int).first() == c);
        assert(s@.skip(i as int).drop_first() =~= s@.skip(i + 1));
        v.push((c as u32) as u8);
        v.push(0);
        i += 1;
    }
    assert(s@.skip(len as int) =~= Seq::<char>::empty());
    assert(v@ =~= seq![0xFFu8, 0xFEu8] + spec_utf16le(s@));
    Some(v)
}

/// Encode an ASCII text as UTF-16 little-endian prefixed with the byte-order
/// mark.
fn utf16le_bom_ascii(s: &str) -> (r: Vec<u8>)
    requires
        all_ascii(s@),
    ensures
        r@ == seq![0xFFu8, 0xFEu8] + spec_utf16le(s@),
{
    let len = s.unicode_len();
    let mut v: Vec<u8> = Vec::new();
    v.push(0xFF);
    v.push(0xFE);
    let mut i: usize = 0;
    assert(s@.skip(0) =~= s@);
    while i < len
        invariant
            all_ascii(s@),
            len == s@.len(),
            i <= len,
            seq![0xFFu8, 0xFEu8] + spec_utf16le(s@) =~= v@ + spec_utf16le(s@.skip(i as int)),
        decreases len - i,
    {
        let c = s.get_char(i);
        assert((s@[i as int] as u32) < 128);
        assert(s@.skip(i as int).first() == c);
        assert(s@.skip(i as int).drop_first() =~= s@.skip(i + 1));
        v.push((c as u32) as u8);
        v.push(0);
        i += 1;
    }
    assert(s@.skip(len as int) =~= Seq::<char>::empty());
    assert(v@ =~= seq![0xFFu8, 0xFEu8] + spec_utf16le(s@));
    v
}

/// A hex digit is ASCII.
proof fn lemma_nibble_ascii(n: u8)
    requires
        n < 16,
    ensures
        (spec_nibble_upper(n) as u32) < 128,
        (spec_nibble_lower(n) as u32) < 128,
{
}

/// A concatenation of ASCII texts is ASCII.
proof fn lemma_all_ascii_concat(a: Seq<char>, b: Seq<char>)
    requires
        all_ascii(a),
        all_ascii(b),
    ensures
        all_ascii(a + b),
{
    assert forall|i: int| 0 <= i < (a + b).len() implies ((a + b)[i] as u32) < 128 by {
        if i < a.len() {
            assert((a + b)[i] == a[i]);
        } else {
            assert((a + b)[i] == b[i - a.len()]);
        }
    }
}

/// Upper-case hex encoding is ASCII.
proof fn lemma_hex_upper_ascii(b: Seq<u8>)
    ensures
        all_ascii(spec_hex_upper(b)),
    decreases b.len(),
{
    if b.len() > 0 {
        lemma_hex_upper_ascii(b.drop_first());
        lemma_nibble_ascii(b.first() / 16);
        lemma_nibble_ascii(b.first() % 16);
        lemma_all_ascii_concat(
            seq![spec_nibble_upper(b.first() / 16), spec_nibble_upper(b.first() % 16)],
            spec_hex_upper(b.drop_first()),
        );
    }
}

/// The hex-pair blob is ASCII.
proof fn lemma_hex_pairs_ascii(b: Seq<u8>)
    ensures
        all_ascii(spec_hex_pairs(b)),
    decreases b.len(),
{
    if b.len() > 0 {
        lemma_hex_pairs_ascii(b.drop_first());
        lemma_nibble_ascii(b.first() / 16);
        lemma_nibble_ascii(b.first() % 16);
        if b.len() > 1 {
            lemma_all_ascii_concat(
                seq![
                    spec_nibble_lower(b.first() / 16),
                    spec_nibble_lower(b.first() % 16),
                    ',',
                ],
                spec_hex_pairs(b.drop_first()),
            );
        }
    }
}

/// Wrapping preserves ASCII: the chunks come from the text and the
/// continuation separator is ASCII.
proof fn lemma_wrap78_ascii(s: Seq<char>)
    requires
        all_ascii(s),
    ensures
        all_ascii(spec_wrap78(s)),
    decreases s.len(),
{
    if s.len() > 78 {
        assert(all_ascii(s.subrange(0, 78))) by {
            assert(forall|i: int| 0 <= i < 78 ==> #[trigger] s.subrange(0, 78)[i] == s[i]);
        }
        assert(all_ascii(s.skip(78))) by {
            assert(forall|i: int|
                0 <= i < s.skip(78).len() ==> #[trigger] s.skip(78)[i] == s[i + 78]);
        }
        lemma_wrap78_ascii(s.skip(78));
        lemma_all_ascii_concat(s.subrange(0, 78), wrap_sep());
        lemma_all_ascii_concat(s.subrange(0, 78) + wrap_sep(), spec_wrap78(s.skip(78)));
    }
}

/// The fixed parts of the registry-editor text are ASCII.
proof fn lemma_reg_literals_ascii()
    ensures
        all_ascii(
            "Windows Registry Editor Version 5.00\n\n[HKEY_CURRENT_USER\\Software\\Microsoft\\SystemCertificates\\My\\Certificates\\"@,
        ),
        all_ascii("]\n\n\"Blob\"=hex:"@),
        all_ascii("\n\n\n"@),
{
    reveal_strlit(
        "Windows Registry Editor Version 5.00\n\n[HKEY_CURRENT_USER\\Software\\Microsoft\\SystemCertificates\\My\\Certificates\\",
    );
    reveal_strlit("]\n\n\"Blob\"=hex:");
    reveal_strlit("\n\n\n");
}

/// The whole registry-editor text is ASCII whenever the fingerprint and the
/// blob are.
proof fn lemma_reg_script_ascii(fp: Seq<char>, blob: Seq<char>)
    requires
        all_ascii(fp),
        all_ascii(blob),
    ensures
        all_ascii(spec_reg_script(fp, blob)),
{
    let lit1 =
        "Windows Registry Editor Version 5.00\n\n[HKEY_CURRENT_USER\\Software\\Microsoft\\SystemCertificates\\My\\Certificates\\"@;
    let lit2 = "]\n\n\"Blob\"=hex:"@;
    let lit3 = "\n\n\n"@;
    lemma_reg_literals_ascii();
    lemma_all_ascii_concat(lit1, fp);
    lemma_all_ascii_concat(lit1 + fp, lit2);
    lemma_all_ascii_concat(lit1 + fp + lit2, blob);
    lemma_all_ascii_concat(lit1 + fp + lit2 + blob, lit3);
}

/// Why a registry-import script could not be produced.
#[derive(Debug)]
pub enum CertScriptError {
    /// The input parses as neither a PEM nor a DER certificate.
    Unparsable,
    /// The fingerprint digest could not be computed.
    Digest,
}

/// From certificate file bytes to the UTF-16 registry-import script and the
/// upper-case fingerprint that names its registry key. The certificate is
/// normalized to DER; its SHA-1 digest names the key; the DER bytes become
/// the wrapped hex blob.
pub fn prepare_registry_import(cert_bytes: &Vec<u8>) -> (r: Result<
    (Vec<u8>, String),
    CertScriptError,
>)
    ensures
        r == Err::<(Vec<u8>, String), CertScriptError>(CertScriptError::Unparsable) <==> cert_der_of(
            cert_bytes@,
        ) is None,
        r matches Ok(p) ==> {
            let der = cert_der_of(cert_bytes@).unwrap();
            let fp = spec_hex_upper(sha1_of(der));
            let script = spec_reg_script(fp, spec_wrap78(spec_hex_pairs(der)));
            &&& p.1@ == fp
            &&& all_ascii(script)
            &&& p.0@ == seq![0xFFu8, 0xFEu8] + spec_utf16le(script)
        },
{
    let der = match cert_to_der(cert_bytes) {
        Some(d) => d,
        None => {
            return Err(CertScriptError::Unparsable);
        },
    };
    let sha1 = match sha1_digest(&der) {
        Some(d) => d,
        None => {
            return Err(CertScriptError::Digest);
        },
    };
    let fingerprint = hex_upper(&sha1);
    let pairs = hex_pairs(&der);
    let wrapped = wrap78(pairs.as_str());
    let script = build_reg_script(fingerprint.as_str(), wrapped.as_str());
    proof {
        lemma_hex_upper_ascii(sha1@);
        lemma_hex_pairs_ascii(der@);
        lemma_wrap78_ascii(pairs@);
        lemma_reg_script_ascii(fingerprint@, wrapped@);
    }
    let bytes = utf16le_bom_ascii(script.as_str());
    Ok((bytes, fingerprint))
}

} // verus!
