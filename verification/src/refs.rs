//! The refs-advertisement builder: the response body for `GET /info/refs`.
//! It is the pkt-line-encoded service header line, then a flush marker, then
//! the backend tool's own advertisement bytes, forwarded untouched.

use vstd::prelude::*;

use crate::err::BridgeError;
use crate::pkt;

verus! {

/// Bytes of `"# service="`.
pub open spec fn service_prefix() -> Seq<u8> {
    seq![35u8, 32u8, 115u8, 101u8, 114u8, 118u8, 105u8, 99u8, 101u8, 61u8]
}

/// Bytes of `"git-upload-pack"`.
pub open spec fn upload_pack_name() -> Seq<u8> {
    seq![
        103u8, 105u8, 116u8, 45u8, 117u8, 112u8, 108u8, 111u8, 97u8, 100u8, 45u8, 112u8, 97u8,
        99u8, 107u8,
    ]
}

/// Bytes of `"git-receive-pack"`.
pub open spec fn receive_pack_name() -> Seq<u8> {
    seq![
        103u8, 105u8, 116u8, 45u8, 114u8, 101u8, 99u8, 101u8, 105u8, 118u8, 101u8, 45u8, 112u8,
        97u8, 99u8, 107u8,
    ]
}

/// Bytes of `"git-upload-archive"`.
pub open spec fn upload_archive_name() -> Seq<u8> {
    seq![
        103u8, 105u8, 116u8, 45u8, 117u8, 112u8, 108u8, 111u8, 97u8, 100u8, 45u8, 97u8, 114u8,
        99u8, 104u8, 105u8, 118u8, 101u8,
    ]
}

/// Whether a service name is on the fixed allow-list. An unlisted name is
/// refused before it can reach the pkt-line payload or any HTTP header.
pub open spec fn allowed_service(name: Seq<u8>) -> bool {
    name == upload_pack_name() || name == receive_pack_name() || name == upload_archive_name()
}

/// The service header line `# service=<name>\n`, as bytes.
pub open spec fn service_line(name: Seq<u8>) -> Seq<u8> {
    service_prefix() + name + seq![10u8]
}

/// The whole advertisement body: the encoded service line, the flush marker,
/// then the backend's advertisement bytes unchanged.
pub open spec fn advertisement(name: Seq<u8>, backend: Seq<u8>) -> Seq<u8> {
    pkt::spec_encode(service_line(name)) + pkt::flush_marker() + backend
}

/// Bytes of `"application/x-"`.
pub open spec fn content_type_head() -> Seq<u8> {
    seq![
        97u8, 112u8, 112u8, 108u8, 105u8, 99u8, 97u8, 116u8, 105u8, 111u8, 110u8, 47u8, 120u8,
        45u8,
    ]
}

/// Bytes of `"-advertisement"`.
pub open spec fn content_type_tail() -> Seq<u8> {
    seq![
        45u8, 97u8, 100u8, 118u8, 101u8, 114u8, 116u8, 105u8, 115u8, 101u8, 109u8, 101u8, 110u8,
        116u8,
    ]
}

/// The advertisement's `Content-Type` value,
/// `application/x-<name>-advertisement`.
pub open spec fn advertisement_content_type(name: Seq<u8>) -> Seq<u8> {
    content_type_head() + name + content_type_tail()
}

/// Whether two byte slices hold the same bytes.
fn bytes_eq(a: &[u8], b: &[u8]) -> (r: bool)
    ensures
        r == (a@ == b@),
{
    if a.len() != b.len() {
        return false;
    }
    let mut i: usize = 0;
    while i < a.len()
        invariant
            a@.len() == b@.len(),
            i <= a@.len(),
            forall|j: int| 0 <= j < i ==> a@[j] == b@[j],
        decreases a@.len() - i,
    {
        if a[i] != b[i] {
            return false;
        }
        i += 1;
    }
    assert(a@ =~= b@);
    true
}

/// Append a copy of every byte of `s` to `out`.
fn push_all(out: &mut Vec<u8>, s: &[u8])
    ensures
        final(out)@ == old(out)@ + s@,
{
    let mut i: usize = 0;
    while i < s.len()
        invariant
            i <= s@.len(),
            out@ == old(out)@ + s@.subrange(0, i as int),
        decreases s@.len() - i,
    {
        out.push(s[i]);
        assert(out@ =~= old(out)@ + s@.subrange(0, i + 1 as int));
        i += 1;
    }
    assert(old(out)@ + s@.subrange(0, s@.len() as int) =~= old(out)@ + s@);
}

/// The bytes of `"git-upload-pack"`, executable form.
fn name_upload_pack() -> (r: Vec<u8>)
    ensures
        r@ == upload_pack_name(),
{
    let mut v: Vec<u8> = Vec::new();
    v.push(103);
    v.push(105);
    v.push(116);
    v.push(45);
    v.push(117);
    v.push(112);
    v.push(108);
    v.push(111);
    v.push(97);
    v.push(100);
    v.push(45);
    v.push(112);
    v.push(97);
    v.push(99);
    v.push(107);
    assert(v@ =~= upload_pack_name());
    v
}

/// The bytes of `"git-receive-pack"`, executable form.
fn name_receive_pack() -> (r: Vec<u8>)
    ensures
        r@ == receive_pack_name(),
{
    let mut v: Vec<u8> = Vec::new();
    v.push(103);
    v.push(105);
    v.push(116);
    v.push(45);
    v.push(114);
    v.push(101);
    v.push(99);
    v.push(101);
    v.push(105);
    v.push(118);
    v.push(101);
    v.push(45);
    v.push(112);
    v.push(97);
    v.push(99);
    v.push(107);
    assert(v@ =~= receive_pack_name());
    v
}

/// The bytes of `"git-upload-archive"`, executable form.
fn name_upload_archive() -> (r: Vec<u8>)
    ensures
        r@ == upload_archive_name(),
{
    let mut v: Vec<u8> = Vec::new();
    v.push(103);
    v.push(105);
    v.push(116);
    v.push(45);
    v.push(117);
    v.push(112);
    v.push(108);
    v.push(111);
    v.push(97);
    v.push(100);
    v.push(45);
    v.push(97);
    v.push(114);
    v.push(99);
    v.push(104);
    v.push(105);
    v.push(118);
    v.push(101);
    assert(v@ =~= upload_archive_name());
    v
}

/// Whether a service name is on the allow-list, executable form.
pub fn is_allowed_service(name: &[u8]) -> (r: bool)
    ensures
        r == allowed_service(name@),
{
    let up = name_upload_pack();
    if bytes_eq(name, up.as_slice()) {
        return true;
    }
    let rp = name_receive_pack();
    if bytes_eq(name, rp.as_slice()) {
        return true;
    }
    let ua = name_upload_archive();
    bytes_eq(name, ua.as_slice())
}

/// The `Content-Type` header value of the `/info/refs` response,
/// `application/x-<name>-advertisement`. A name outside the allow-list is
/// refused with `UnknownService`, so no request-controlled byte can reach an
/// HTTP header unchecked.
pub fn content_type_for(service_name: &[u8]) -> (r: Result<Vec<u8>, BridgeError>)
    ensures
        allowed_service(service_name@) ==> (r matches Ok(v) && v@ == advertisement_content_type(
            service_name@,
        )),
        !allowed_service(service_name@) ==> r == Err::<Vec<u8>, BridgeError>(
            BridgeError::UnknownService,
        ),
{
    if !is_allowed_service(service_name) {
        return Err(BridgeError::UnknownService);
    }
    let mut out: Vec<u8> = Vec::new();
    out.push(97);
    out.push(112);
    out.push(112);
    out.push(108);
    out.push(105);
    out.push(99);
    out.push(97);
    out.push(116);
    out.push(105);
    out.push(111);
    out.push(110);
    out.push(47);
    out.push(120);
    out.push(45);
    assert(out@ =~= content_type_head());
    push_all(&mut out, service_name);
    out.push(45);
    out.push(97);
    out.push(100);
    out.push(118);
    out.push(101);
    out.push(114);
    out.push(116);
    out.push(105);
    out.push(115);
    out.push(101);
    out.push(109);
    out.push(101);
    out.push(110);
    out.push(116);
    assert(out@ =~= advertisement_content_type(service_name@));
    Ok(out)
}

/// Builder for the `/info/refs` response body.
pub struct RefsAdvertiser;

impl RefsAdvertiser {
    /// Compose the advertisement for a service.
    ///
    /// A name outside the allow-list is refused with `UnknownService`. For a
    /// listed name the result is exactly: the pkt-line frame of
    /// `# service=<name>\n`, then the flush marker `0000`, then
    /// `backend_output` byte for byte, nothing added and nothing dropped.
    pub fn build(service_name: &[u8], backend_output: &[u8]) -> (r: Result<Vec<u8>, BridgeError>)
        ensures
            allowed_service(service_name@) ==> (r matches Ok(v) && v@ == advertisement(
                service_name@,
                backend_output@,
            )),
            !allowed_service(service_name@) ==> r == Err::<Vec<u8>, BridgeError>(
                BridgeError::UnknownService,
            ),
    {
        if !is_allowed_service(service_name) {
            return Err(BridgeError::UnknownService);
        }
        let mut line: Vec<u8> = Vec::new();
        line.push(35);
        line.push(32);
        line.push(115);
        line.push(101);
        line.push(114);
        line.push(118);
        line.push(105);
        line.push(99);
        line.push(101);
        line.push(61);
        assert(line@ =~= service_prefix());
        push_all(&mut line, service_name);
        line.push(10);
        assert(line@ =~= service_line(service_name@));
        assert(line@.len() <= 29);
        let frame = match pkt::encode(line.as_slice()) {
            Ok(f) => f,
            Err(e) => {
                return Err(e);
            },
        };
        let mut out = frame;
        out.push(48);
        out.push(48);
        out.push(48);
        out.push(48);
        assert(out@ =~= pkt::spec_encode(service_line(service_name@)) + pkt::flush_marker());
        push_all(&mut out, backend_output);
        Ok(out)
    }
}

} // verus!
