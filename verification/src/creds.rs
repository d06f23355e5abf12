//! Device credentials: what a valid triple looks like, which error an
//! invalid one gets, and the fingerprint that identifies a configuration.

use vstd::prelude::*;
use vstd::string::*;
use vstd::utf8::*;
use crate::digest::{sha256, sha256_of};
use crate::hex::{hex, hex_of, is_hex_digit, lemma_hex_of};
use crate::text::{ascii_bytes, owned};

verus! {

/// What is wrong with a set of credentials. For each of the three fields
/// there is one error for an empty value and one for a malformed one.
#[derive(Debug, Clone, Copy, PartialEq, Eq, Hash, Structural)]
pub enum CredErr {
    FleetIDMissing,
    FleetIDInvalid,
    DeviceIDMissing,
    DeviceIDInvalid,
    DeviceSecretMissing,
    DeviceSecretInvalid,
}

impl CredErr {
    /// The message shown for the error.
    pub open spec fn text(self) -> Seq<char> {
        match self {
            CredErr::FleetIDMissing => "Fleet ID is missing. Fleet ID is an 8-character alphanumeric string. You'll find the device credentials in your Fleet's Devices tab on https://fostrom.io."@,
            CredErr::FleetIDInvalid => "Fleet ID is invalid. Fleet ID is an 8-character alphanumeric string. You'll find the device credentials in your Fleet's Devices tab on https://fostrom.io."@,
            CredErr::DeviceIDMissing => "Device ID is missing. Device ID is a 10-character alphanumeric string. You'll find the device credentials in your Fleet's Devices tab on https://fostrom.io."@,
            CredErr::DeviceIDInvalid => "Device ID is invalid. Device ID is a 10-character alphanumeric string. You'll find the device credentials in your Fleet's Devices tab on https://fostrom.io."@,
            CredErr::DeviceSecretMissing => "Device Secret is missing. Device Secret is a 36-character alphanumeric string that begins with `FOS-`. You'll find the device credentials in your Fleet's Devices tab on https://fostrom.io."@,
            CredErr::DeviceSecretInvalid => "Device Secret is invalid. Device Secret is a 36-character alphanumeric string that begins with `FOS-`. You'll find the device credentials in your Fleet's Devices tab on https://fostrom.io."@,
        }
    }

    pub fn to_string(&self) -> (s: String)
        ensures
            s@ == self.text(),
    {
        match self {
            CredErr::FleetIDMissing => owned("Fleet ID is missing. Fleet ID is an 8-character alphanumeric string. You'll find the device credentials in your Fleet's Devices tab on https://fostrom.io."),
            CredErr::FleetIDInvalid => owned("Fleet ID is invalid. Fleet ID is an 8-character alphanumeric string. You'll find the device credentials in your Fleet's Devices tab on https://fostrom.io."),
            CredErr::DeviceIDMissing => owned("Device ID is missing. Device ID is a 10-character alphanumeric string. You'll find the device credentials in your Fleet's Devices tab on https://fostrom.io."),
            CredErr::DeviceIDInvalid => owned("Device ID is invalid. Device ID is a 10-character alphanumeric string. You'll find the device credentials in your Fleet's Devices tab on https://fostrom.io."),
            CredErr::DeviceSecretMissing => owned("Device Secret is missing. Device Secret is a 36-character alphanumeric string that begins with `FOS-`. You'll find the device credentials in your Fleet's Devices tab on https://fostrom.io."),
            CredErr::DeviceSecretInvalid => owned("Device Secret is invalid. Device Secret is a 36-character alphanumeric string that begins with `FOS-`. You'll find the device credentials in your Fleet's Devices tab on https://fostrom.io."),
        }
    }
}

/// Whether `c` is a digit or an unaccented Latin letter.
pub open spec fn is_alnum(c: char) -> bool {
    ('0' <= c <= '9') || ('a' <= c <= 'z') || ('A' <= c <= 'Z')
}

/// Whether every character of `s` from index `from` on is alphanumeric.
pub open spec fn all_alnum_from(s: Seq<char>, from: int) -> bool {
    forall|i: int| from <= i < s.len() ==> is_alnum(#[trigger] s[i])
}

/// A fleet id is eight alphanumeric characters.
pub open spec fn fleet_id_ok(s: Seq<char>) -> bool {
    s.len() == 8 && all_alnum_from(s, 0)
}

/// A device id is ten alphanumeric characters.
pub open spec fn device_id_ok(s: Seq<char>) -> bool {
    s.len() == 10 && all_alnum_from(s, 0)
}

/// A device secret is `FOS-` followed by 32 alphanumeric characters.
pub open spec fn device_secret_ok(s: Seq<char>) -> bool {
    &&& s.len() == 36
    &&& s[0] == 'F'
    &&& s[1] == 'O'
    &&& s[2] == 'S'
    &&& s[3] == '-'
    &&& all_alnum_from(s, 4)
}

/// The error that a triple of credentials gets, if any: the first field
/// that is empty or malformed decides, in the order fleet id, device id,
/// device secret.
pub open spec fn cred_error(
    fleet_id: Seq<char>,
    device_id: Seq<char>,
    device_secret: Seq<char>,
) -> Option<CredErr> {
    if fleet_id.len() == 0 {
        Some(CredErr::FleetIDMissing)
    } else if !fleet_id_ok(fleet_id) {
        Some(CredErr::FleetIDInvalid)
    } else if device_id.len() == 0 {
        Some(CredErr::DeviceIDMissing)
    } else if !device_id_ok(device_id) {
        Some(CredErr::DeviceIDInvalid)
    } else if device_secret.len() == 0 {
        Some(CredErr::DeviceSecretMissing)
    } else if !device_secret_ok(device_secret) {
        Some(CredErr::DeviceSecretInvalid)
    } else {
        None
    }
}

/// The text of the production flag, as bytes: `true` or `false`.
pub open spec fn flag_bytes(flag: bool) -> Seq<u8> {
    if flag {
        seq![116u8, 114u8, 117u8, 101u8]
    } else {
        seq![102u8, 97u8, 108u8, 115u8, 101u8]
    }
}

/// Valid credentials hold ASCII characters only, so each field takes as
/// many bytes as it has characters.
pub proof fn lemma_valid_fields_are_ascii(
    fleet_id: Seq<char>,
    device_id: Seq<char>,
    device_secret: Seq<char>,
)
    requires
        cred_error(fleet_id, device_id, device_secret) is None,
    ensures
        is_ascii_chars(fleet_id),
        is_ascii_chars(device_id),
        is_ascii_chars(device_secret),
        encode_utf8(fleet_id).len() == 8,
        encode_utf8(device_id).len() == 10,
        encode_utf8(device_secret).len() == 36,
{
    assert forall|i: int| 0 <= i < fleet_id.len() implies '\0' <= #[trigger] fleet_id[i]
        <= '\u{7f}' by {
        assert(is_alnum(fleet_id[i]));
    }
    assert forall|i: int| 0 <= i < device_id.len() implies '\0' <= #[trigger] device_id[i]
        <= '\u{7f}' by {
        assert(is_alnum(device_id[i]));
    }
    assert forall|i: int| 0 <= i < device_secret.len() implies '\0'
        <= #[trigger] device_secret[i] <= '\u{7f}' by {
        if i >= 4 {
            assert(is_alnum(device_secret[i]));
        }
    }
    is_ascii_chars_encode_utf8(fleet_id);
    is_ascii_chars_encode_utf8(device_id);
    is_ascii_chars_encode_utf8(device_secret);
}

/// The credentials of a device.
#[derive(Debug, Clone, PartialEq, Eq)]
pub struct Creds {
    pub fleet_id: String,
    pub device_id: String,
    pub device_secret: String,
    pub prod: bool,
}

fn is_alnum_byte(b: u8) -> (r: bool)
    ensures
        r == ((48 <= b <= 57) || (97 <= b <= 122) || (65 <= b <= 90)),
{
    (48 <= b && b <= 57) || (97 <= b && b <= 122) || (65 <= b && b <= 90)
}

/// Whether the characters of an ASCII string from `from` on are alphanumeric.
fn alnum_from(bytes: &[u8], from: usize, Ghost(s): Ghost<Seq<char>>) -> (r: bool)
    requires
        bytes@.len() == s.len(),
        forall|i: int| 0 <= i < s.len() ==> bytes@[i] == #[trigger] s[i] as u8,
        is_ascii_chars(s),
    ensures
        r == all_alnum_from(s, from as int),
{
    let mut i: usize = from;
    while i < bytes.len()
        invariant
            bytes@.len() == s.len(),
            forall|k: int| 0 <= k < s.len() ==> bytes@[k] == #[trigger] s[k] as u8,
            is_ascii_chars(s),
            from <= i,
            forall|k: int| from <= k < i && k < s.len() ==> is_alnum(#[trigger] s[k]),
        decreases bytes.len() - i,
    {
        let ghost c = s[i as int];
        assert('\0' <= c <= '\u{7f}');
        assert(bytes@[i as int] == c as u8);
        if !is_alnum_byte(bytes[i]) {
            assert(!is_alnum(c));
            return false;
        }
        assert(is_alnum(c));
        i += 1;
    }
    true
}

impl Creds {
    /// Whether the three fields are valid.
    pub open spec fn wf(self) -> bool {
        cred_error(self.fleet_id@, self.device_id@, self.device_secret@) is None
    }

    /// The bytes that the fingerprint is the digest of: the three fields
    /// and the text of the production flag, one after the other.
    pub open spec fn fingerprint_input(self) -> Seq<u8> {
        encode_utf8(self.fleet_id@) + encode_utf8(self.device_id@) + encode_utf8(
            self.device_secret@,
        ) + flag_bytes(self.prod)
    }

    /// The fingerprint: the SHA-256 digest of the fingerprint input, in
    /// lower-case hexadecimal.
    pub open spec fn fingerprint(self) -> Seq<char> {
        hex_of(sha256_of(self.fingerprint_input()))
    }

    /// Checks the three fields and keeps them if they are valid.
    pub fn new(fleet_id: &str, device_id: &str, device_secret: &str, prod: bool) -> (r: Result<
        Creds,
        CredErr,
    >)
        ensures
            match r {
                Ok(creds) => {
                    &&& cred_error(fleet_id@, device_id@, device_secret@) is None
                    &&& creds.fleet_id@ == fleet_id@
                    &&& creds.device_id@ == device_id@
                    &&& creds.device_secret@ == device_secret@
                    &&& creds.prod == prod
                    &&& creds.wf()
                },
                Err(e) => cred_error(fleet_id@, device_id@, device_secret@) == Some(e),
            },
    {
        match Self::validate_fleet_id(fleet_id) {
            Err(e) => {
                return Err(e);
            },
            Ok(()) => {},
        }
        match Self::validate_device_id(device_id) {
            Err(e) => {
                return Err(e);
            },
            Ok(()) => {},
        }
        match Self::validate_device_secret(device_secret) {
            Err(e) => {
                return Err(e);
            },
            Ok(()) => {},
        }
        Ok(
            Creds {
                fleet_id: owned(fleet_id),
                device_id: owned(device_id),
                device_secret: owned(device_secret),
                prod,
            },
        )
    }

    /// The fingerprint of the credentials: 64 lower-case hexadecimal
    /// digits. Equal credentials have equal fingerprints.
    pub fn hash(&self) -> (h: String)
        ensures
            h@ == self.fingerprint(),
            h@.len() == 64,
            forall|i: int| 0 <= i < 64 ==> is_hex_digit(#[trigger] h@[i]),
    {
        let mut input: Vec<u8> = Vec::new();
        input.extend_from_slice(self.fleet_id.as_str().as_bytes());
        input.extend_from_slice(self.device_id.as_str().as_bytes());
        input.extend_from_slice(self.device_secret.as_str().as_bytes());
        if self.prod {
            input.push(116u8);
            input.push(114u8);
            input.push(117u8);
            input.push(101u8);
        } else {
            input.push(102u8);
            input.push(97u8);
            input.push(108u8);
            input.push(115u8);
            input.push(101u8);
        }
        assert(input@ =~= self.fingerprint_input());
        let digest = sha256(input.as_slice());
        proof {
            lemma_hex_of(digest@);
        }
        hex(digest.as_slice())
    }

    pub fn validate_fleet_id(fleet_id: &str) -> (r: Result<(), CredErr>)
        ensures
            r is Ok <==> fleet_id_ok(fleet_id@),
            r is Err ==> r->Err_0 == (if fleet_id@.len() == 0 {
                CredErr::FleetIDMissing
            } else {
                CredErr::FleetIDInvalid
            }),
    {
        if fleet_id.is_empty() {
            return Err(CredErr::FleetIDMissing);
        }
        match ascii_bytes(fleet_id) {
            None => Err(CredErr::FleetIDInvalid),
            Some(bytes) => {
                if bytes.len() != 8 || !alnum_from(bytes, 0, Ghost(fleet_id@)) {
                    Err(CredErr::FleetIDInvalid)
                } else {
                    Ok(())
                }
            },
        }
    }

    pub fn validate_device_id(device_id: &str) -> (r: Result<(), CredErr>)
        ensures
            r is Ok <==> device_id_ok(device_id@),
            r is Err ==> r->Err_0 == (if device_id@.len() == 0 {
                CredErr::DeviceIDMissing
            } else {
                CredErr::DeviceIDInvalid
            }),
    {
        if device_id.is_empty() {
            return Err(CredErr::DeviceIDMissing);
        }
        match ascii_bytes(device_id) {
            None => Err(CredErr::DeviceIDInvalid),
            Some(bytes) => {
                if bytes.len() != 10 || !alnum_from(bytes, 0, Ghost(device_id@)) {
                    Err(CredErr::DeviceIDInvalid)
                } else {
                    Ok(())
                }
            },
        }
    }

    pub fn validate_device_secret(device_secret: &str) -> (r: Result<(), CredErr>)
        ensures
            r is Ok <==> device_secret_ok(device_secret@),
            r is Err ==> r->Err_0 == (if device_secret@.len() == 0 {
                CredErr::DeviceSecretMissing
            } else {
                CredErr::DeviceSecretInvalid
            }),
    {
        if device_secret.is_empty() {
            return Err(CredErr::DeviceSecretMissing);
        }
        match ascii_bytes(device_secret) {
            None => Err(CredErr::DeviceSecretInvalid),
            Some(bytes) => {
                let ghost s = device_secret@;
                if bytes.len() != 36 {
                    return Err(CredErr::DeviceSecretInvalid);
                }
                assert('\0' <= s[0] <= '\u{7f}' && '\0' <= s[1] <= '\u{7f}' && '\0' <= s[2]
                    <= '\u{7f}' && '\0' <= s[3] <= '\u{7f}');
                assert(bytes@[0] == s[0] as u8 && bytes@[1] == s[1] as u8 && bytes@[2] == s[2] as u8
                    && bytes@[3] == s[3] as u8);
                if bytes[0] != 70u8 || bytes[1] != 79u8 || bytes[2] != 83u8 || bytes[3] != 45u8 {
                    return Err(CredErr::DeviceSecretInvalid);
                }
                if !alnum_from(bytes, 4, Ghost(s)) {
                    return Err(CredErr::DeviceSecretInvalid);
                }
                Ok(())
            },
        }
    }
}


/// A text of ASCII characters is known by its bytes.
proof fn lemma_ascii_text_by_bytes(a: Seq<char>, b: Seq<char>)
    requires
        is_ascii_chars(a),
        is_ascii_chars(b),
        encode_utf8(a) == encode_utf8(b),
    ensures
        a == b,
{
    is_ascii_chars_encode_utf8(a);
    is_ascii_chars_encode_utf8(b);
    assert(a.len() == b.len());
    assert forall|i: int| 0 <= i < a.len() implies a[i] == b[i] by {
        assert(a[i] as u8 == encode_utf8(a)[i]);
        assert(b[i] as u8 == encode_utf8(b)[i]);
        assert('\0' <= a[i] <= '\u{7f}');
        assert('\0' <= b[i] <= '\u{7f}');
    }
    assert(a =~= b);
}

/// Valid credentials that differ in a field or in the production flag
/// have different fingerprint inputs: what is hashed tells the
/// credentials apart. (Whether the digests differ too is for SHA-256 to
/// say.)
pub proof fn lemma_fingerprint_input_tells_apart(a: Creds, b: Creds)
    requires
        a.wf(),
        b.wf(),
        a.fingerprint_input() == b.fingerprint_input(),
    ensures
        a.fleet_id@ == b.fleet_id@,
        a.device_id@ == b.device_id@,
        a.device_secret@ == b.device_secret@,
        a.prod == b.prod,
{
    lemma_valid_fields_are_ascii(a.fleet_id@, a.device_id@, a.device_secret@);
    lemma_valid_fields_are_ascii(b.fleet_id@, b.device_id@, b.device_secret@);
    let ia = a.fingerprint_input();
    let ib = b.fingerprint_input();
    let fa = encode_utf8(a.fleet_id@);
    let fb = encode_utf8(b.fleet_id@);
    let da = encode_utf8(a.device_id@);
    let db = encode_utf8(b.device_id@);
    let sa = encode_utf8(a.device_secret@);
    let sb = encode_utf8(b.device_secret@);
    assert(ia.subrange(0, 8) =~= fa);
    assert(ib.subrange(0, 8) =~= fb);
    assert(ia.subrange(8, 18) =~= da);
    assert(ib.subrange(8, 18) =~= db);
    assert(ia.subrange(18, 54) =~= sa);
    assert(ib.subrange(18, 54) =~= sb);
    lemma_ascii_text_by_bytes(a.fleet_id@, b.fleet_id@);
    lemma_ascii_text_by_bytes(a.device_id@, b.device_id@);
    lemma_ascii_text_by_bytes(a.device_secret@, b.device_secret@);
    assert(ia.len() == 54 + flag_bytes(a.prod).len());
    assert(ib.len() == 54 + flag_bytes(b.prod).len());
}

/// Equal credentials have equal fingerprints: the fingerprint depends on
/// the fields and the flag alone.
pub proof fn lemma_fingerprint_is_deterministic(a: Creds, b: Creds)
    requires
        a.fleet_id@ == b.fleet_id@,
        a.device_id@ == b.device_id@,
        a.device_secret@ == b.device_secret@,
        a.prod == b.prod,
    ensures
        a.fingerprint() == b.fingerprint(),
{
}

} // verus!
