//! PKCS #12 archives: which of them can be read, and what they hold.
//!
//! An archive is a DER sequence of a version, the authenticated safe and an optional MAC. The
//! authenticated safe is a content info: plain or encrypted data. Its data is a sequence of
//! content infos, and the data of each of those is a sequence of bags with certificates and
//! keys. The `p12` crate reads all of it. It makes nothing of the version and the content type
//! of encrypted data but asserts, in some builds, that they are the usual ones; so an archive
//! with unusual ones is handed to it with the usual ones in their place. It works off whatever
//! iteration count it finds, and does not survive skipping an element whose length overflows;
//! so what it is about to read is looked at before.
use crate::protocol;
use crate::text;
use crate::transport::der;
use crate::transport::der::{
    any_element, element, skippable, wrap, CONTEXT_0, INTEGER, OBJECT_IDENTIFIER, OCTET_STRING,
    SEQUENCE, SET_OF,
};
use vstd::prelude::*;

verus! {

/// The highest iteration count of a key derivation, which is 2 to the power of 60. Tools write
/// some thousands; a derivation with more than this many does not come to its end: at a
/// thousand million iterations a second it takes more than thirty years.
pub const MAX_ITERATIONS: u64 = 1152921504606846976;

/// The byte strings of a list.
pub open spec fn blobs(v: Seq<Vec<u8>>) -> Seq<Seq<u8>> {
    v.map_values(|b: Vec<u8>| b@)
}

/// An object identifier below 1.2.840.113549.1, which belongs to the PKCS documents.
pub open spec fn pkcs(arcs: Seq<u8>) -> Seq<u8> {
    seq![0x2au8, 0x86, 0x48, 0x86, 0xf7, 0x0d, 0x01] + arcs
}

/// The type of plain data.
pub open spec fn data_type() -> Seq<u8> {
    pkcs(seq![7u8, 1])
}

/// The type of encrypted data.
pub open spec fn encrypted_data_type() -> Seq<u8> {
    pkcs(seq![7u8, 6])
}

/// Encryption with SHA-1 and triple DES, or with SHA-1 and 40-bit RC2: the two for which
/// keys are derived.
pub open spec fn derives_key(algorithm: Seq<u8>) -> bool {
    algorithm == pkcs(seq![12u8, 1, 3]) || algorithm == pkcs(seq![12u8, 1, 6])
}

/// The type of a bag with an encrypted private key.
pub open spec fn shrouded_key_type() -> Seq<u8> {
    pkcs(seq![12u8, 10, 1, 2])
}

/// The iteration count in the parameters of a key derivation, behind the salt.
pub open spec fn iterations(parameters: Seq<u8>) -> Option<nat> {
    match element(parameters, SEQUENCE) {
        Some((values, _)) => match element(values, OCTET_STRING) {
            Some((_, rest)) => match element(rest, INTEGER) {
                Some((count, _)) => Some(der::big_endian(count)),
                None => None,
            },
            None => None,
        },
        None => None,
    }
}

/// The algorithm identifier at the front can be read, and asks for no more than
/// `MAX_ITERATIONS`. Parameters that are not looked into are skipped.
pub open spec fn algorithm_fits(s: Seq<u8>) -> bool {
    element(s, SEQUENCE) matches Some((algorithm, _)) ==> element(
        algorithm,
        OBJECT_IDENTIFIER,
    ) matches Some((oid, parameters)) ==> (if derives_key(oid) {
        iterations(parameters) matches Some(count) ==> count <= MAX_ITERATIONS
    } else {
        skippable(parameters)
    })
}

/// The MAC at the front can be read. Nothing is derived for it.
pub open spec fn mac_fits(s: Seq<u8>) -> bool {
    element(s, SEQUENCE) matches Some((mac, _)) ==> element(mac, SEQUENCE) matches Some((digest, _))
        ==> element(digest, SEQUENCE) matches Some((algorithm, _)) ==> element(
        algorithm,
        OBJECT_IDENTIFIER,
    ) matches Some((oid, parameters)) ==> derives_key(oid) || skippable(parameters)
}

/// The encrypted data at the front has version 0, its content is plain data, and its
/// algorithm fits.
pub open spec fn encryption_known(s: Seq<u8>) -> bool {
    element(s, SEQUENCE) matches Some((data, _)) ==> element(data, INTEGER) matches Some(
        (version, rest),
    ) ==> version == seq![0u8] && (element(rest, SEQUENCE) matches Some((info, _)) ==> element(
        info,
        OBJECT_IDENTIFIER,
    ) matches Some((oid, algorithm)) ==> oid == data_type() && algorithm_fits(algorithm))
}

/// The content info can be read: the encryption of encrypted data is known, and other
/// content can be skipped.
pub open spec fn content_known(s: Seq<u8>) -> bool {
    element(s, SEQUENCE) matches Some((content, _)) ==> element(
        content,
        OBJECT_IDENTIFIER,
    ) matches Some((oid, rest)) ==> element(rest, CONTEXT_0) matches Some((value, _)) ==> (if oid
        == encrypted_data_type() {
        encryption_known(value)
    } else {
        skippable(value)
    })
}

/// The elements can be skipped one after the other, up to one that is cut short.
pub open spec fn all_skippable(s: Seq<u8>) -> bool
    decreases s.len(),
{
    &&& skippable(s)
    &&& any_element(s) matches Some((_, rest)) ==> rest.len() < s.len() ==> all_skippable(rest)
}

/// The values of the attribute can be skipped.
pub open spec fn attribute_fits(attribute: Seq<u8>) -> bool {
    element(attribute, OBJECT_IDENTIFIER) matches Some((_, values)) ==> element(
        values,
        SET_OF,
    ) matches Some((set, _)) ==> all_skippable(set)
}

/// The values of the attributes in the list can be skipped. The attributes are followed up
/// to one that is none.
pub open spec fn attributes_fit(list: Seq<u8>) -> bool
    decreases list.len(),
{
    match element(list, SEQUENCE) {
        None => true,
        Some((attribute, rest)) => {
            &&& attribute_fits(attribute)
            &&& rest.len() < list.len() ==> attributes_fit(rest)
        },
    }
}

/// The content of a bag of the type can be read: a key asks for no more than
/// `MAX_ITERATIONS`, and other content can be skipped.
pub open spec fn value_fits(oid: Seq<u8>, value: Seq<u8>) -> bool {
    if oid == shrouded_key_type() {
        element(value, SEQUENCE) matches Some((key, _)) ==> algorithm_fits(key)
    } else {
        skippable(value)
    }
}

/// The bag can be read: its content, and its attributes.
pub open spec fn bag_fits(bag: Seq<u8>) -> bool {
    element(bag, OBJECT_IDENTIFIER) matches Some((oid, rest)) ==> element(
        rest,
        CONTEXT_0,
    ) matches Some((value, behind)) ==> value_fits(oid, value) && (element(behind, SET_OF) matches Some((attributes, _)) ==> attributes_fit(attributes))
}

/// The bags in the list can be read. They are followed up to one that is none.
pub open spec fn bag_list_fits(list: Seq<u8>) -> bool
    decreases list.len(),
{
    match element(list, SEQUENCE) {
        None => true,
        Some((bag, rest)) => {
            &&& bag_fits(bag)
            &&& rest.len() < list.len() ==> bag_list_fits(rest)
        },
    }
}

/// The bags can be read.
pub open spec fn bags_fit(s: Seq<u8>) -> bool {
    element(s, SEQUENCE) matches Some((list, _)) ==> bag_list_fits(list)
}

/// The data of a content info, decrypted with the password where it is encrypted; none
/// where that fails, or where it is no content info with data.
pub uninterp spec fn pkcs12_content(info: Seq<u8>, password: Seq<u8>) -> Option<Seq<u8>>;

/// The element at the front with what comes behind it cut off.
pub open spec fn only(s: Seq<u8>, rest: Seq<u8>) -> Seq<u8> {
    s.take(s.len() - rest.len())
}

/// The content infos in the list can be read, and so can the bags that they hold. They are
/// followed up to one that is none.
pub open spec fn contents_readable(list: Seq<u8>, password: Seq<u8>) -> bool
    decreases list.len(),
{
    match element(list, SEQUENCE) {
        None => true,
        Some((_, rest)) => {
            let info = only(list, rest);
            &&& content_known(info)
            &&& pkcs12_content(info, password) matches Some(bags) ==> bags_fit(bags)
            &&& rest.len() < list.len() ==> contents_readable(rest, password)
        },
    }
}

/// The authenticated safe can be read, and so can everything in it.
pub open spec fn safe_readable(info: Seq<u8>, password: Seq<u8>) -> bool {
    &&& content_known(info)
    &&& pkcs12_content(info, password) matches Some(contents) ==> element(
        contents,
        SEQUENCE,
    ) matches Some((list, _)) ==> contents_readable(list, password)
}

/// The UTF-16 code units of a character, each with its high byte first.
pub open spec fn utf16(c: char) -> Seq<u8> {
    let n = c as u32 as int;
    if n < 0x10000 {
        seq![(n / 256) as u8, (n % 256) as u8]
    } else {
        let high = 0xd800 + (n - 0x10000) / 0x400;
        let low = 0xdc00 + (n - 0x10000) % 0x400;
        seq![(high / 256) as u8, (high % 256) as u8, (low / 256) as u8, (low % 256) as u8]
    }
}

/// The UTF-16 code units of a text.
pub open spec fn utf16_text(s: Seq<char>) -> Seq<u8>
    decreases s.len(),
{
    if s.len() == 0 {
        Seq::empty()
    } else {
        utf16_text(s.drop_last()) + utf16(s.last())
    }
}

/// A password as archives take it: in UTF-16, with a zero behind it.
pub open spec fn password_bytes(password: Seq<char>) -> Seq<u8> {
    utf16_text(password) + seq![0u8, 0]
}

/// The parts of an archive.
pub struct ArchiveView {
    pub version: Seq<u8>,
    /// The content info that is the authenticated safe.
    pub safe: Seq<u8>,
    /// What comes behind it: the MAC.
    pub mac: Seq<u8>,
    /// What comes behind the archive, which is nothing in one that can be read.
    pub behind: Seq<u8>,
}

/// The parts of an archive, where it has them.
pub open spec fn archive_parts(archive: Seq<u8>) -> Option<ArchiveView> {
    match element(archive, SEQUENCE) {
        Some((pfx, behind)) => match element(pfx, INTEGER) {
            Some((version, rest)) => match element(rest, SEQUENCE) {
                Some((_, mac)) => Some(
                    ArchiveView { version, safe: only(rest, mac), mac, behind },
                ),
                None => None,
            },
            None => None,
        },
        None => None,
    }
}

/// The archive can be read by `p12`: no assertion of it fails, no key derivation asks for more
/// than `MAX_ITERATIONS`, and no element that it skips overflows, in the archive or in what
/// comes to light when the parts of it are decrypted. An archive that is none can be read
/// too, up to where it goes wrong.
pub open spec fn parser_survives(archive: Seq<u8>, password: Seq<char>) -> bool {
    archive_parts(archive) matches Some(p) ==> mac_fits(p.mac) && safe_readable(
        p.safe,
        password_bytes(password),
    )
}

/// The parts of a content info with encrypted data.
pub struct EncryptedView {
    pub version: Seq<u8>,
    pub content_type: Seq<u8>,
    /// What comes behind the content type: the algorithm and the encrypted content.
    pub algorithm: Seq<u8>,
    /// What comes behind the description of the content, behind the encrypted data and behind
    /// the tag, which is nothing in one that can be read.
    pub behind: (Seq<u8>, Seq<u8>, Seq<u8>),
}

/// The parts of encrypted data.
pub open spec fn encrypted_data_parts(value: Seq<u8>, behind_tag: Seq<u8>) -> Option<
    EncryptedView,
> {
    match element(value, SEQUENCE) {
        Some((data, behind_data)) => match element(data, INTEGER) {
            Some((version, rest)) => match element(rest, SEQUENCE) {
                Some((info, behind_info)) => match element(info, OBJECT_IDENTIFIER) {
                    Some((content_type, algorithm)) => Some(
                        EncryptedView {
                            version,
                            content_type,
                            algorithm,
                            behind: (behind_info, behind_data, behind_tag),
                        },
                    ),
                    None => None,
                },
                None => None,
            },
            None => None,
        },
        None => None,
    }
}

/// The parts of a content info, where it holds encrypted data.
pub open spec fn encrypted_parts(info: Seq<u8>) -> Option<EncryptedView> {
    match element(info, SEQUENCE) {
        Some((content, _)) => match element(content, OBJECT_IDENTIFIER) {
            Some((oid, rest)) => match element(rest, CONTEXT_0) {
                Some((value, behind)) => if oid == encrypted_data_type() {
                    encrypted_data_parts(value, behind)
                } else {
                    None
                },
                None => None,
            },
            None => None,
        },
        None => None,
    }
}

/// The bytes are a number below 256 in its shortest form.
pub open spec fn is_byte(number: Seq<u8>) -> bool {
    ||| number.len() == 1 && number[0] < 128
    ||| number.len() == 2 && number[0] == 0 && number[1] >= 128
}

/// The arcs of an object identifier from `i` on fit in 64 bits, where the one that is under
/// way is `arc` so far.
pub open spec fn arcs_fit(oid: Seq<u8>, i: int, arc: nat) -> bool
    decreases oid.len() - i,
{
    if i >= oid.len() {
        true
    } else {
        &&& arc * 128 <= u64::MAX
        &&& arcs_fit(
            oid,
            i + 1,
            if oid[i] < 128 {
                0
            } else {
                (arc * 128 + oid[i] % 128) as nat
            },
        )
    }
}

/// The bytes are an object identifier.
pub open spec fn is_oid(oid: Seq<u8>) -> bool {
    &&& oid.len() > 0
    &&& oid.last() < 128
    &&& !oid.contains(128u8)
    &&& arcs_fit(oid, 0, 0)
}

/// Encrypted data whose version is not 0, or whose content is of another type than plain
/// data.
pub open spec fn unusual(info: Seq<u8>) -> bool {
    encrypted_parts(info) matches Some(p) && is_byte(p.version) && is_oid(p.content_type) && !(
    p.version == seq![0u8] && p.content_type == data_type())
}

/// The content info with encrypted data that has version 0 and whose content is plain data.
pub open spec fn usual_form(p: EncryptedView) -> Seq<u8> {
    let info = wrap(SEQUENCE, wrap(OBJECT_IDENTIFIER, data_type()) + p.algorithm);
    let data = wrap(SEQUENCE, wrap(INTEGER, seq![0u8]) + (info + p.behind.0));
    let value = wrap(CONTEXT_0, data + p.behind.1);
    wrap(SEQUENCE, wrap(OBJECT_IDENTIFIER, encrypted_data_type()) + (value + p.behind.2))
}

/// The content info, in the usual form where it is unusual.
pub open spec fn usual(info: Seq<u8>) -> Seq<u8> {
    if unusual(info) {
        usual_form(encrypted_parts(info)->0)
    } else {
        info
    }
}

/// An element is little longer than its content.
proof fn lemma_wrap_len(identifier: u8, content: Seq<u8>)
    requires
        content.len() <= u64::MAX,
    ensures
        wrap(identifier, content).len() <= content.len() + 10,
{
    der::lemma_length_len(content.len());
}

/// What a content info holds behind its content type is no longer than the content info.
proof fn lemma_parts_are_shorter(info: Seq<u8>)
    ensures
        encrypted_parts(info) matches Some(p) ==> p.algorithm.len() + p.behind.0.len()
            + p.behind.1.len() + p.behind.2.len() <= info.len(),
{
    der::lemma_element_len(info);
    if let Some((content, _)) = element(info, SEQUENCE) {
        der::lemma_element_len(content);
        if let Some((_, rest)) = element(content, OBJECT_IDENTIFIER) {
            der::lemma_element_len(rest);
            if let Some((value, _)) = element(rest, CONTEXT_0) {
                der::lemma_element_len(value);
                if let Some((data, _)) = element(value, SEQUENCE) {
                    der::lemma_element_len(data);
                    if let Some((_, rest)) = element(data, INTEGER) {
                        der::lemma_element_len(rest);
                        if let Some((about, _)) = element(rest, SEQUENCE) {
                            der::lemma_element_len(about);
                        }
                    }
                }
            }
        }
    }
}

/// Encrypted data of any version, and of any type of content, is no obstacle: its usual form
/// has the same algorithm and the same encrypted content, is not unusual itself, and can be
/// read wherever the algorithm can.
pub proof fn law_the_usual_form_is_known(info: Seq<u8>)
    requires
        info.len() <= isize::MAX,
        unusual(info),
    ensures
        encrypted_parts(info) matches Some(p) && encrypted_parts(usual(info)) == Some(
            EncryptedView { version: seq![0u8], content_type: data_type(), ..p },
        ) && content_known(usual(info)) == algorithm_fits(p.algorithm),
        !unusual(usual(info)),
{
    lemma_parts_are_shorter(info);
    let p = encrypted_parts(info)->0;
    let none = Seq::<u8>::empty();
    let about = wrap(OBJECT_IDENTIFIER, data_type()) + p.algorithm;
    let rest = wrap(SEQUENCE, about) + p.behind.0;
    let data = wrap(INTEGER, seq![0u8]) + rest;
    let value = wrap(SEQUENCE, data) + p.behind.1;
    let tagged = wrap(CONTEXT_0, value) + p.behind.2;
    let content = wrap(OBJECT_IDENTIFIER, encrypted_data_type()) + tagged;
    lemma_wrap_len(OBJECT_IDENTIFIER, data_type());
    lemma_wrap_len(SEQUENCE, about);
    lemma_wrap_len(INTEGER, seq![0u8]);
    lemma_wrap_len(SEQUENCE, data);
    lemma_wrap_len(CONTEXT_0, value);
    lemma_wrap_len(OBJECT_IDENTIFIER, encrypted_data_type());
    der::law_a_wrapped_element_is_read_back(OBJECT_IDENTIFIER, data_type(), p.algorithm);
    der::law_a_wrapped_element_is_read_back(SEQUENCE, about, p.behind.0);
    der::law_a_wrapped_element_is_read_back(INTEGER, seq![0u8], rest);
    der::law_a_wrapped_element_is_read_back(SEQUENCE, data, p.behind.1);
    der::law_a_wrapped_element_is_read_back(CONTEXT_0, value, p.behind.2);
    der::law_a_wrapped_element_is_read_back(OBJECT_IDENTIFIER, encrypted_data_type(), tagged);
    der::law_a_wrapped_element_is_read_back(SEQUENCE, content, none);
    assert(wrap(SEQUENCE, content) + none =~= usual(info));
}

/// The list of content infos, each in its usual form. What comes behind the last one stays.
pub open spec fn usual_list(list: Seq<u8>) -> Seq<u8>
    decreases list.len(),
{
    match element(list, SEQUENCE) {
        None => list,
        Some((_, rest)) => usual(only(list, rest)) + (if rest.len() < list.len() {
            usual_list(rest)
        } else {
            rest
        }),
    }
}

/// Whether one of the content infos in the list is unusual.
pub open spec fn any_unusual(list: Seq<u8>) -> bool
    decreases list.len(),
{
    match element(list, SEQUENCE) {
        None => false,
        Some((_, rest)) => unusual(only(list, rest)) || (rest.len() < list.len() && any_unusual(
            rest,
        )),
    }
}

/// What a safe holds, with every content info in its usual form.
pub open spec fn usual_contents(contents: Seq<u8>) -> Seq<u8> {
    match element(contents, SEQUENCE) {
        None => contents,
        Some((list, rest)) => wrap(SEQUENCE, usual_list(list)) + rest,
    }
}

/// The content info with the plain data.
pub open spec fn plain_content(data: Seq<u8>) -> Seq<u8> {
    wrap(
        SEQUENCE,
        wrap(OBJECT_IDENTIFIER, data_type()) + wrap(CONTEXT_0, wrap(OCTET_STRING, data)),
    )
}

/// The archive with the parts.
pub open spec fn archive_of(p: ArchiveView) -> Seq<u8> {
    wrap(SEQUENCE, wrap(INTEGER, p.version) + p.safe + p.mac) + p.behind
}

/// Whether there is something unusual in the archive.
pub open spec fn archive_unusual(p: ArchiveView, password: Seq<u8>) -> bool {
    ||| unusual(p.safe)
    ||| pkcs12_content(usual(p.safe), password) matches Some(contents) && element(
        contents,
        SEQUENCE,
    ) matches Some((list, _)) && any_unusual(list)
}

/// The archive as it is read: the archive itself, unless there is something unusual in it;
/// then with the usual version and content type in all its encrypted data.
pub open spec fn readable_form(archive: Seq<u8>, password: Seq<char>) -> Seq<u8> {
    let pw = password_bytes(password);
    match archive_parts(archive) {
        Some(p) => if archive_unusual(p, pw) {
            let safe = match pkcs12_content(usual(p.safe), pw) {
                Some(contents) => plain_content(usual_contents(contents)),
                None => usual(p.safe),
            };
            archive_of(ArchiveView { safe, ..p })
        } else {
            archive
        },
        None => archive,
    }
}

/// The archive can be read in the form in which it is read.
pub open spec fn archive_readable(archive: Seq<u8>, password: Seq<char>) -> bool {
    &&& archive_parts(archive) matches Some(p) ==> content_known(usual(p.safe))
    &&& parser_survives(readable_form(archive, password), password)
}

/// The certificates of a PKCS #12 archive, or what is wrong with it.
pub uninterp spec fn pkcs12_certs(archive: Seq<u8>, password: Seq<char>) -> Result<
    Seq<Seq<u8>>,
    Seq<char>,
>;

/// The private keys of a PKCS #12 archive, or what is wrong with it.
pub uninterp spec fn pkcs12_keys(archive: Seq<u8>, password: Seq<char>) -> Result<
    Seq<Seq<u8>>,
    Seq<char>,
>;

/// Whether an executable result is the one that is named.
pub open spec fn is_result(
    r: Result<Vec<Vec<u8>>, String>,
    named: Result<Seq<Seq<u8>>, Seq<char>>,
) -> bool {
    match r {
        Ok(list) => named == Ok::<Seq<Seq<u8>>, Seq<char>>(blobs(list@)),
        Err(text) => named == Err::<Seq<Seq<u8>>, Seq<char>>(text@),
    }
}

/// `p12::ContentInfo::from_der` and `p12::ContentInfo::data`: the data of a content info,
/// which depends on nothing but its bytes and the password. What the data is is not stated.
#[verifier::external_body]
fn content_data(info: &[u8], password: &[u8]) -> (r: Option<Vec<u8>>)
    requires
        content_known(info@),
    ensures
        pkcs12_content(info@, password@) == (match r {
            Some(data) => Some(data@),
            None => None,
        }),
{
    p12::ContentInfo::from_der(info).ok()?.data(password)
}

/// `p12::PFX::parse` and `p12::PFX::cert_bags`: the certificates of an archive, which
/// depend on nothing but its bytes and the password, or the text of the error. Which they
/// are is not stated.
#[verifier::external_body]
pub(crate) fn cert_bags(archive: &[u8], password: &str) -> (r: Result<Vec<Vec<u8>>, String>)
    requires
        parser_survives(archive@, password@),
    ensures
        is_result(r, pkcs12_certs(archive@, password@)),
{
    let pfx = p12::PFX::parse(archive).map_err(|e| e.to_string())?;
    pfx.cert_bags(password).map_err(|e| e.to_string())
}

/// `p12::PFX::parse` and `p12::PFX::key_bags`: the private keys of an archive, which
/// depend on nothing but its bytes and the password, or the text of the error. Which they
/// are is not stated.
#[verifier::external_body]
pub(crate) fn key_bags(archive: &[u8], password: &str) -> (r: Result<Vec<Vec<u8>>, String>)
    requires
        parser_survives(archive@, password@),
    ensures
        is_result(r, pkcs12_keys(archive@, password@)),
{
    let pfx = p12::PFX::parse(archive).map_err(|e| e.to_string())?;
    pfx.key_bags(password).map_err(|e| e.to_string())
}

/// Whether the bytes are the object identifier below 1.2.840.113549.1.
fn is_pkcs(oid: &[u8], arcs: &[u8]) -> (r: bool)
    ensures
        r == (oid@ == pkcs(arcs@)),
{
    let root: [u8; 7] = [0x2a, 0x86, 0x48, 0x86, 0xf7, 0x0d, 0x01];
    if oid.len() < 7 || oid.len() - 7 != arcs.len() {
        return false;
    }
    proof {
        assert(root@ =~= seq![0x2au8, 0x86, 0x48, 0x86, 0xf7, 0x0d, 0x01]);
    }
    let mut i: usize = 0;
    while i < oid.len()
        invariant
            i <= oid@.len(),
            oid@.len() == 7 + arcs@.len(),
            pkcs(arcs@) == root@ + arcs@,
            oid@.take(i as int) == pkcs(arcs@).take(i as int),
        decreases oid@.len() - i,
    {
        let expected: u8 = if i < 7 {
            root[i]
        } else {
            arcs[i - 7]
        };
        if oid[i] != expected {
            proof {
                assert(oid@[i as int] != pkcs(arcs@)[i as int]);
            }
            return false;
        }
        proof {
            assert(oid@.take(i + 1) =~= oid@.take(i as int).push(oid@[i as int]));
            assert(pkcs(arcs@).take(i + 1) =~= pkcs(arcs@).take(i as int).push(
                pkcs(arcs@)[i as int],
            ));
        }
        i += 1;
    }
    proof {
        assert(oid@.take(i as int) =~= oid@);
        assert(pkcs(arcs@).take(i as int) =~= pkcs(arcs@));
    }
    true
}

/// Writes a code unit with its high byte first.
fn push_unit(out: &mut Vec<u8>, unit: u32)
    requires
        unit < 0x10000,
    ensures
        final(out)@ == old(out)@ + seq![(unit / 256) as u8, (unit % 256) as u8],
{
    out.push((unit / 256) as u8);
    out.push((unit % 256) as u8);
    proof {
        assert(out@ =~= old(out)@ + seq![(unit / 256) as u8, (unit % 256) as u8]);
    }
}

/// Writes the code units of a character.
fn push_char(out: &mut Vec<u8>, c: char)
    ensures
        final(out)@ == old(out)@ + utf16(c),
{
    let n: u32 = c as u32;
    if n < 0x10000 {
        push_unit(out, n);
    } else {
        let above: u32 = n - 0x10000;
        push_unit(out, 0xd800 + above / 0x400);
        push_unit(out, 0xdc00 + above % 0x400);
    }
    proof {
        assert(out@ =~= old(out)@ + utf16(c));
    }
}

/// A password as archives take it: in UTF-16, with a zero behind it.
fn encode_password(password: &str) -> (r: Vec<u8>)
    ensures
        r@ == password_bytes(password@),
{
    let chars = text::chars_of(password);
    let mut out: Vec<u8> = Vec::new();
    let mut i: usize = 0;
    while i < chars.len()
        invariant
            i <= chars@.len(),
            out@ == utf16_text(chars@.take(i as int)),
        decreases chars@.len() - i,
    {
        push_char(&mut out, chars[i]);
        proof {
            assert(chars@.take(i + 1).drop_last() =~= chars@.take(i as int));
        }
        i += 1;
    }
    proof {
        assert(chars@.take(i as int) =~= password@);
    }
    push_unit(&mut out, 0);
    out
}

/// Whether keys are derived for the algorithm.
fn check_derives_key(oid: &[u8]) -> (r: bool)
    ensures
        r == derives_key(oid@),
{
    let triple_des: [u8; 3] = [12, 1, 3];
    let rc2: [u8; 3] = [12, 1, 6];
    proof {
        assert(triple_des@ =~= seq![12u8, 1, 3]);
        assert(rc2@ =~= seq![12u8, 1, 6]);
    }
    is_pkcs(oid, &triple_des) || is_pkcs(oid, &rc2)
}

/// Whether the bytes are the type of plain data.
fn check_data_type(oid: &[u8]) -> (r: bool)
    ensures
        r == (oid@ == data_type()),
{
    let arcs: [u8; 2] = [7, 1];
    proof {
        assert(arcs@ =~= seq![7u8, 1]);
    }
    is_pkcs(oid, &arcs)
}

/// Whether the bytes are the type of encrypted data.
fn check_encrypted_type(oid: &[u8]) -> (r: bool)
    ensures
        r == (oid@ == encrypted_data_type()),
{
    let arcs: [u8; 2] = [7, 6];
    proof {
        assert(arcs@ =~= seq![7u8, 6]);
    }
    is_pkcs(oid, &arcs)
}

/// Whether the bytes are the type of a bag with an encrypted private key.
fn check_key_type(oid: &[u8]) -> (r: bool)
    ensures
        r == (oid@ == shrouded_key_type()),
{
    let arcs: [u8; 4] = [12, 10, 1, 2];
    proof {
        assert(arcs@ =~= seq![12u8, 10, 1, 2]);
    }
    is_pkcs(oid, &arcs)
}

/// Whether the bytes are the number 0.
fn is_zero(number: &[u8]) -> (r: bool)
    ensures
        r == (number@ == seq![0u8]),
{
    if number.len() == 1 && number[0] == 0 {
        proof {
            assert(number@ =~= seq![0u8]);
        }
        true
    } else {
        false
    }
}

/// Whether the parameters ask for no more than `MAX_ITERATIONS`.
fn check_iterations(parameters: &[u8]) -> (r: bool)
    ensures
        r == (iterations(parameters@) matches Some(count) ==> count <= MAX_ITERATIONS),
{
    if let Some((values, _)) = der::read_element(parameters, SEQUENCE) {
        if let Some((_, rest)) = der::read_element(values, OCTET_STRING) {
            if let Some((count, _)) = der::read_element(rest, INTEGER) {
                return der::read_number(count, MAX_ITERATIONS).is_some();
            }
        }
    }
    true
}

/// Whether the algorithm identifier at the front can be read, and asks for no more than
/// `MAX_ITERATIONS`.
fn check_algorithm(s: &[u8]) -> (r: bool)
    ensures
        r == algorithm_fits(s@),
{
    if let Some((algorithm, _)) = der::read_element(s, SEQUENCE) {
        if let Some((oid, parameters)) = der::read_element(algorithm, OBJECT_IDENTIFIER) {
            return if check_derives_key(oid) {
                check_iterations(parameters)
            } else {
                der::check_skip(parameters)
            };
        }
    }
    true
}

/// Whether the MAC at the front can be read.
fn check_mac(s: &[u8]) -> (r: bool)
    ensures
        r == mac_fits(s@),
{
    if let Some((mac, _)) = der::read_element(s, SEQUENCE) {
        if let Some((digest, _)) = der::read_element(mac, SEQUENCE) {
            if let Some((algorithm, _)) = der::read_element(digest, SEQUENCE) {
                if let Some((oid, parameters)) = der::read_element(algorithm, OBJECT_IDENTIFIER) {
                    return check_derives_key(oid) || der::check_skip(parameters);
                }
            }
        }
    }
    true
}

/// Whether the encrypted data at the front has version 0, its content is plain data, and
/// its algorithm fits.
fn check_encryption(s: &[u8]) -> (r: bool)
    ensures
        r == encryption_known(s@),
{
    if let Some((data, _)) = der::read_element(s, SEQUENCE) {
        if let Some((version, rest)) = der::read_element(data, INTEGER) {
            if !is_zero(version) {
                return false;
            }
            if let Some((info, _)) = der::read_element(rest, SEQUENCE) {
                if let Some((oid, algorithm)) = der::read_element(info, OBJECT_IDENTIFIER) {
                    return check_data_type(oid) && check_algorithm(algorithm);
                }
            }
        }
    }
    true
}

/// Whether the content info can be read.
fn check_content(s: &[u8]) -> (r: bool)
    ensures
        r == content_known(s@),
{
    if let Some((content, _)) = der::read_element(s, SEQUENCE) {
        if let Some((oid, rest)) = der::read_element(content, OBJECT_IDENTIFIER) {
            if let Some((value, _)) = der::read_element(rest, CONTEXT_0) {
                return if check_encrypted_type(oid) {
                    check_encryption(value)
                } else {
                    der::check_skip(value)
                };
            }
        }
    }
    true
}

/// Whether the elements can be skipped one after the other.
fn check_set(s: &[u8]) -> (r: bool)
    ensures
        r == all_skippable(s@),
{
    let mut rest = s;
    while rest.len() > 0
        invariant
            all_skippable(s@) == all_skippable(rest@),
        decreases rest@.len(),
    {
        if !der::check_skip(rest) {
            return false;
        }
        match der::read_any(rest) {
            None => return true,
            Some((_, behind)) => {
                rest = behind;
            },
        }
    }
    true
}

/// Whether the values of the attribute can be skipped.
fn check_attribute(attribute: &[u8]) -> (r: bool)
    ensures
        r == attribute_fits(attribute@),
{
    if let Some((_, values)) = der::read_element(attribute, OBJECT_IDENTIFIER) {
        if let Some((set, _)) = der::read_element(values, SET_OF) {
            return check_set(set);
        }
    }
    true
}

/// Whether the values of the attributes in the list can be skipped.
fn check_attributes(list: &[u8]) -> (r: bool)
    ensures
        r == attributes_fit(list@),
{
    let mut rest = list;
    while rest.len() > 0
        invariant
            attributes_fit(list@) == attributes_fit(rest@),
        decreases rest@.len(),
    {
        match der::read_element(rest, SEQUENCE) {
            None => return true,
            Some((attribute, behind)) => {
                proof {
                    assert(attributes_fit(rest@) == (attribute_fits(attribute@) && attributes_fit(
                        behind@,
                    )));
                }
                if !check_attribute(attribute) {
                    return false;
                }
                rest = behind;
            },
        }
    }
    true
}

/// Whether the content of a bag of the type can be read.
fn check_value(oid: &[u8], value: &[u8]) -> (r: bool)
    ensures
        r == value_fits(oid@, value@),
{
    if check_key_type(oid) {
        match der::read_element(value, SEQUENCE) {
            Some((key, _)) => check_algorithm(key),
            None => true,
        }
    } else {
        der::check_skip(value)
    }
}

/// Whether the bag can be read.
fn check_bag(bag: &[u8]) -> (r: bool)
    ensures
        r == bag_fits(bag@),
{
    if let Some((oid, rest)) = der::read_element(bag, OBJECT_IDENTIFIER) {
        if let Some((value, behind)) = der::read_element(rest, CONTEXT_0) {
            if !check_value(oid, value) {
                return false;
            }
            if let Some((attributes, _)) = der::read_element(behind, SET_OF) {
                return check_attributes(attributes);
            }
        }
    }
    true
}

/// Whether the bags in the list can be read.
fn check_bag_list(list: &[u8]) -> (r: bool)
    ensures
        r == bag_list_fits(list@),
{
    let mut rest = list;
    while rest.len() > 0
        invariant
            bag_list_fits(list@) == bag_list_fits(rest@),
        decreases rest@.len(),
    {
        match der::read_element(rest, SEQUENCE) {
            None => return true,
            Some((bag, behind)) => {
                proof {
                    assert(bag_list_fits(rest@) == (bag_fits(bag@) && bag_list_fits(behind@)));
                }
                if !check_bag(bag) {
                    return false;
                }
                rest = behind;
            },
        }
    }
    true
}

/// Whether the bags can be read.
fn check_bags(s: &[u8]) -> (r: bool)
    ensures
        r == bags_fit(s@),
{
    match der::read_element(s, SEQUENCE) {
        Some((list, _)) => check_bag_list(list),
        None => true,
    }
}

/// Whether the content infos in the list can be read, and the bags that they hold.
fn check_contents(list: &[u8], password: &[u8]) -> (r: bool)
    ensures
        r == contents_readable(list@, password@),
{
    let mut rest = list;
    while rest.len() > 0
        invariant
            contents_readable(list@, password@) == contents_readable(rest@, password@),
        decreases rest@.len(),
    {
        match der::read_element(rest, SEQUENCE) {
            None => return true,
            Some((_, behind)) => {
                let info = &rest[0..rest.len() - behind.len()];
                proof {
                    assert(info@ =~= only(rest@, behind@));
                }
                if !check_content(info) {
                    return false;
                }
                if let Some(bags) = content_data(info, password) {
                    if !check_bags(bags.as_slice()) {
                        return false;
                    }
                }
                rest = behind;
            },
        }
    }
    true
}

/// Whether the authenticated safe can be read, and everything in it.
fn check_safe(info: &[u8], password: &[u8]) -> (r: bool)
    ensures
        r == safe_readable(info@, password@),
{
    if !check_content(info) {
        return false;
    }
    if let Some(contents) = content_data(info, password) {
        if let Some((list, _)) = der::read_element(contents.as_slice(), SEQUENCE) {
            return check_contents(list, password);
        }
    }
    true
}

/// The parts of an archive.
struct Archive<'a> {
    version: &'a [u8],
    safe: &'a [u8],
    mac: &'a [u8],
    behind: &'a [u8],
}

impl<'a> View for Archive<'a> {
    type V = ArchiveView;

    closed spec fn view(&self) -> ArchiveView {
        ArchiveView {
            version: self.version@,
            safe: self.safe@,
            mac: self.mac@,
            behind: self.behind@,
        }
    }
}

/// The parts of an archive, where it has them.
fn read_archive<'a>(archive: &'a [u8]) -> (r: Option<Archive<'a>>)
    ensures
        match r {
            Some(p) => archive_parts(archive@) == Some(p@),
            None => archive_parts(archive@) is None,
        },
{
    if let Some((pfx, behind)) = der::read_element(archive, SEQUENCE) {
        if let Some((version, rest)) = der::read_element(pfx, INTEGER) {
            if let Some((_, mac)) = der::read_element(rest, SEQUENCE) {
                let safe = &rest[0..rest.len() - mac.len()];
                proof {
                    assert(safe@ =~= only(rest@, mac@));
                }
                return Some(Archive { version, safe, mac, behind });
            }
        }
    }
    None
}

/// Whether `p12` survives the archive.
fn check_archive(archive: &[u8], password: &str) -> (r: bool)
    ensures
        r == parser_survives(archive@, password@),
{
    match read_archive(archive) {
        Some(p) => {
            let pw = encode_password(password);
            check_mac(p.mac) && check_safe(p.safe, pw.as_slice())
        },
        None => true,
    }
}

/// The parts of a content info with encrypted data.
struct Encrypted<'a> {
    version: &'a [u8],
    content_type: &'a [u8],
    algorithm: &'a [u8],
    behind_info: &'a [u8],
    behind_data: &'a [u8],
    behind_tag: &'a [u8],
}

impl<'a> View for Encrypted<'a> {
    type V = EncryptedView;

    closed spec fn view(&self) -> EncryptedView {
        EncryptedView {
            version: self.version@,
            content_type: self.content_type@,
            algorithm: self.algorithm@,
            behind: (self.behind_info@, self.behind_data@, self.behind_tag@),
        }
    }
}

/// The parts of a content info, where it holds encrypted data.
fn read_encrypted<'a>(info: &'a [u8]) -> (r: Option<Encrypted<'a>>)
    ensures
        match r {
            Some(p) => encrypted_parts(info@) == Some(p@),
            None => encrypted_parts(info@) is None,
        },
{
    let (value, behind_tag) = match read_encrypted_value(info) {
        Some(found) => found,
        None => return None,
    };
    if let Some((data, behind_data)) = der::read_element(value, SEQUENCE) {
        if let Some((version, rest)) = der::read_element(data, INTEGER) {
            if let Some((about, behind_info)) = der::read_element(rest, SEQUENCE) {
                if let Some((content_type, algorithm)) = der::read_element(
                    about,
                    OBJECT_IDENTIFIER,
                ) {
                    return Some(
                        Encrypted {
                            version,
                            content_type,
                            algorithm,
                            behind_info,
                            behind_data,
                            behind_tag,
                        },
                    );
                }
            }
        }
    }
    None
}

/// The encrypted data of a content info, and what comes behind its tag.
fn read_encrypted_value<'a>(info: &'a [u8]) -> (r: Option<(&'a [u8], &'a [u8])>)
    ensures
        match r {
            Some((value, behind)) => encrypted_parts(info@) == encrypted_data_parts(
                value@,
                behind@,
            ),
            None => encrypted_parts(info@) is None,
        },
{
    if let Some((content, _)) = der::read_element(info, SEQUENCE) {
        if let Some((oid, rest)) = der::read_element(content, OBJECT_IDENTIFIER) {
            if let Some((value, behind)) = der::read_element(rest, CONTEXT_0) {
                if check_encrypted_type(oid) {
                    return Some((value, behind));
                }
            }
        }
    }
    None
}

/// Whether the bytes are a number below 256.
fn check_byte(number: &[u8]) -> (r: bool)
    ensures
        r == is_byte(number@),
{
    if number.len() == 1 {
        number[0] < 128
    } else {
        number.len() == 2 && number[0] == 0 && number[1] >= 128
    }
}

/// Whether the bytes are an object identifier.
fn check_oid(oid: &[u8]) -> (r: bool)
    ensures
        r == is_oid(oid@),
{
    if oid.len() == 0 || oid[oid.len() - 1] >= 128 {
        return false;
    }
    let mut arc: u64 = 0;
    let mut i: usize = 0;
    while i < oid.len()
        invariant
            i <= oid@.len(),
            forall|k: int| 0 <= k < i ==> oid@[k] != 128,
            arcs_fit(oid@, 0, 0) == arcs_fit(oid@, i as int, arc as nat),
        decreases oid@.len() - i,
    {
        let b: u8 = oid[i];
        if b == 128 {
            proof {
                assert(oid@.contains(128u8));
            }
            return false;
        }
        if arc > u64::MAX / 128 {
            return false;
        }
        arc = if b < 128 {
            0
        } else {
            arc * 128 + (b % 128) as u64
        };
        i += 1;
    }
    true
}

/// The encrypted parts of the content info, where it is unusual.
fn read_unusual<'a>(info: &'a [u8]) -> (r: Option<Encrypted<'a>>)
    ensures
        match r {
            Some(p) => unusual(info@) && encrypted_parts(info@) == Some(p@),
            None => !unusual(info@),
        },
{
    match read_encrypted(info) {
        Some(p) => {
            if check_byte(p.version) && check_oid(p.content_type) && !(is_zero(p.version)
                && check_data_type(p.content_type)) {
                Some(p)
            } else {
                None
            }
        },
        None => None,
    }
}

/// One byte string behind another.
fn joined(a: &[u8], b: &[u8]) -> (r: Vec<u8>)
    ensures
        r@ == a@ + b@,
{
    let mut out = protocol::slice_to_vec(a);
    out.extend_from_slice(b);
    proof {
        assert(out@ =~= a@ + b@);
    }
    out
}

/// The element with an object identifier below 1.2.840.113549.1.
fn write_pkcs(arcs: &[u8]) -> (r: Vec<u8>)
    ensures
        r@ == wrap(OBJECT_IDENTIFIER, pkcs(arcs@)),
{
    let root: [u8; 7] = [0x2a, 0x86, 0x48, 0x86, 0xf7, 0x0d, 0x01];
    proof {
        assert(root@ =~= seq![0x2au8, 0x86, 0x48, 0x86, 0xf7, 0x0d, 0x01]);
    }
    let oid = joined(&root, arcs);
    der::write_element(OBJECT_IDENTIFIER, oid.as_slice())
}

/// The content info with encrypted data that has version 0 and whose content is plain data.
fn write_usual_form(p: &Encrypted<'_>) -> (r: Vec<u8>)
    ensures
        r@ == usual_form(p@),
{
    let data_arcs: [u8; 2] = [7, 1];
    let encrypted_arcs: [u8; 2] = [7, 6];
    let zero: [u8; 1] = [0];
    proof {
        assert(data_arcs@ =~= seq![7u8, 1]);
        assert(encrypted_arcs@ =~= seq![7u8, 6]);
        assert(zero@ =~= seq![0u8]);
    }
    let info = joined(write_pkcs(&data_arcs).as_slice(), p.algorithm);
    let info = der::write_element(SEQUENCE, info.as_slice());
    let rest = joined(info.as_slice(), p.behind_info);
    let data = joined(der::write_element(INTEGER, &zero).as_slice(), rest.as_slice());
    let data = der::write_element(SEQUENCE, data.as_slice());
    let value = joined(data.as_slice(), p.behind_data);
    let value = der::write_element(CONTEXT_0, value.as_slice());
    let rest = joined(value.as_slice(), p.behind_tag);
    let content = joined(write_pkcs(&encrypted_arcs).as_slice(), rest.as_slice());
    der::write_element(SEQUENCE, content.as_slice())
}

/// The content info, in the usual form where it is unusual, and whether it is.
fn to_usual(info: &[u8]) -> (r: (Vec<u8>, bool))
    ensures
        r.0@ == usual(info@),
        r.1 == unusual(info@),
{
    match read_unusual(info) {
        Some(p) => (write_usual_form(&p), true),
        None => (protocol::slice_to_vec(info), false),
    }
}

/// The usual form of a list starts with that of its first content info.
proof fn lemma_usual_list(list: Seq<u8>)
    ensures
        element(list, SEQUENCE) matches Some((_, rest)) ==> rest.len() < list.len() ==> usual_list(
            list,
        ) == usual(only(list, rest)) + usual_list(rest) && any_unusual(list) == (unusual(
            only(list, rest),
        ) || any_unusual(rest)),
{
}

/// The list of content infos, each in its usual form, and whether one is unusual.
fn to_usual_list(list: &[u8]) -> (r: (Vec<u8>, bool))
    ensures
        r.0@ == usual_list(list@),
        r.1 == any_unusual(list@),
{
    let mut out: Vec<u8> = Vec::new();
    let mut changed = false;
    let mut rest = list;
    proof {
        assert(Seq::<u8>::empty() + usual_list(list@) =~= usual_list(list@));
    }
    while rest.len() > 0
        invariant
            usual_list(list@) == out@ + usual_list(rest@),
            any_unusual(list@) == (changed || any_unusual(rest@)),
        decreases rest@.len(),
    {
        match der::read_element(rest, SEQUENCE) {
            None => {
                out.extend_from_slice(rest);
                proof {
                    assert(out@ =~= usual_list(list@));
                }
                return (out, changed);
            },
            Some((_, behind)) => {
                let info = &rest[0..rest.len() - behind.len()];
                let ghost was = out@;
                let (form, unusual_info) = to_usual(info);
                out.extend_from_slice(form.as_slice());
                proof {
                    assert(info@ =~= only(rest@, behind@));
                    lemma_usual_list(rest@);
                    assert(out@ =~= was + form@);
                    assert(was + (form@ + usual_list(behind@)) =~= out@ + usual_list(behind@));
                }
                changed = changed || unusual_info;
                rest = behind;
            },
        }
    }
    proof {
        assert(usual_list(rest@) =~= Seq::<u8>::empty());
        assert(out@ + Seq::<u8>::empty() =~= out@);
    }
    (out, changed)
}

/// The content info with the plain data.
fn write_plain_content(data: &[u8]) -> (r: Vec<u8>)
    ensures
        r@ == plain_content(data@),
{
    let data_arcs: [u8; 2] = [7, 1];
    proof {
        assert(data_arcs@ =~= seq![7u8, 1]);
    }
    let octets = der::write_element(OCTET_STRING, data);
    let value = der::write_element(CONTEXT_0, octets.as_slice());
    let content = joined(write_pkcs(&data_arcs).as_slice(), value.as_slice());
    der::write_element(SEQUENCE, content.as_slice())
}

/// The archive with the parts, but with another safe.
fn write_archive(p: &Archive<'_>, safe: &[u8]) -> (r: Vec<u8>)
    ensures
        r@ == archive_of(ArchiveView { safe: safe@, ..p@ }),
{
    let pfx = joined(der::write_element(INTEGER, p.version).as_slice(), safe);
    let pfx = joined(pfx.as_slice(), p.mac);
    joined(der::write_element(SEQUENCE, pfx.as_slice()).as_slice(), p.behind)
}

/// The archive in the form in which it is read, unless it cannot be read.
pub fn open_archive(archive: &[u8], password: &str) -> (r: Option<Vec<u8>>)
    ensures
        match r {
            Some(form) => archive_readable(archive@, password@) && form@ == readable_form(
                archive@,
                password@,
            ),
            None => !archive_readable(archive@, password@),
        },
{
    let form = match read_archive(archive) {
        None => protocol::slice_to_vec(archive),
        Some(p) => {
            let (safe, unusual_safe) = to_usual(p.safe);
            if !check_content(safe.as_slice()) {
                return None;
            }
            let pw = encode_password(password);
            match content_data(safe.as_slice(), pw.as_slice()) {
                None => if unusual_safe {
                    write_archive(&p, safe.as_slice())
                } else {
                    protocol::slice_to_vec(archive)
                },
                Some(contents) => {
                    let (contents, unusual_contents) = to_usual_contents(contents.as_slice());
                    if unusual_safe || unusual_contents {
                        let safe = write_plain_content(contents.as_slice());
                        write_archive(&p, safe.as_slice())
                    } else {
                        protocol::slice_to_vec(archive)
                    }
                },
            }
        },
    };
    if check_archive(form.as_slice(), password) {
        Some(form)
    } else {
        None
    }
}

/// What a safe holds, with every content info in its usual form, and whether one is unusual.
fn to_usual_contents(contents: &[u8]) -> (r: (Vec<u8>, bool))
    ensures
        r.0@ == usual_contents(contents@),
        r.1 == (element(contents@, SEQUENCE) matches Some((list, _)) && any_unusual(list)),
{
    match der::read_element(contents, SEQUENCE) {
        None => (protocol::slice_to_vec(contents), false),
        Some((list, rest)) => {
            let (list, changed) = to_usual_list(list);
            let list = der::write_element(SEQUENCE, list.as_slice());
            (joined(list.as_slice(), rest), changed)
        },
    }
}

} // verus!
