//! The per-event work of a peer session, as pure computations: what a
//! header announcement or a downloaded body means for the archive and for
//! the cursor.  The surrounding loop performs the file writes it is handed
//! and must write the body file before the cursor file, so that the
//! cursor never names a point whose body is missing.

use vstd::prelude::*;
use crate::codec::{cursor_encode, spec_decode, spec_encode};
use crate::cursor::{Cursor, SerializablePoint, CURSOR_BACKLOG};
use crate::decode::{body_point, body_point_of, header_point, header_point_of};
use crate::error::SlurpError;
use crate::point::{Point, PointView};
use crate::utils::{artifact_path, spec_artifact_path};

verus! {

/// A planned artifact write: the decoded point and the file path for it.
pub struct ArtifactWrite {
    pub point: Point,
    pub path: Vec<u8>,
}

/// A planned body write: the artifact file plus the new cursor file
/// contents that must follow it.
pub struct BodyWrite {
    pub point: Point,
    pub path: Vec<u8>,
    pub cursor_bytes: Vec<u8>,
}

/// The write a recognized header demands: its bytes, unchanged, at the
/// bucketed path of its decoded point.
pub open spec fn spec_header_write(directory: Seq<u8>, cbor: Seq<u8>) -> Option<(Seq<u8>, Seq<u8>)> {
    match header_point_of(cbor) {
        Some(p) => Some((spec_artifact_path(directory, p), cbor)),
        None => None,
    }
}

/// Process one header announcement: derive its point and the path of its
/// artifact file under `directory`.  The caller writes the header bytes
/// there and feeds the point to the batcher.  Bytes no era recognizes are
/// a protocol violation, fatal for the session.
pub fn handle_header(directory: &Vec<u8>, cbor: &Vec<u8>) -> (r: Result<ArtifactWrite, SlurpError>)
    ensures
        match r {
            Ok(w) => spec_header_write(directory@, cbor@) == Some((w.path@, cbor@))
                && header_point_of(cbor@) == Some(w.point@) && w.point.wf()
                && w.point@ is Specific,
            Err(e) => e == SlurpError::ProtocolViolation && header_point_of(cbor@) is None,
        },
{
    match header_point(cbor) {
        Some(point) => {
            let path = artifact_path(directory, &point);
            Ok(ArtifactWrite { point, path })
        },
        None => Err(SlurpError::ProtocolViolation),
    }
}

/// Process one downloaded body: derive its point, the path of its
/// artifact file under `directory`, push the point onto the cursor, and
/// serialize the new cursor.  The caller writes the body bytes first and
/// the cursor bytes second.  After the push the cursor's front is exactly
/// the written point.  Bytes no era recognizes are a protocol violation,
/// fatal for the session; the cursor is then untouched.
pub fn handle_body(directory: &Vec<u8>, cursor: &mut Cursor, body: &Vec<u8>) -> (r: Result<
    BodyWrite,
    SlurpError,
>)
    requires
        old(cursor).wf(),
    ensures
        final(cursor).wf(),
        match r {
            Ok(w) => {
                &&& body_point_of(body@) == Some(w.point@)
                &&& w.point.wf()
                &&& w.point@ is Specific
                &&& w.path@ == spec_artifact_path(directory@, w.point@)
                &&& final(cursor)@.len() == if old(cursor)@.len() < CURSOR_BACKLOG {
                    (old(cursor)@.len() + 1) as nat
                } else {
                    20nat
                }
                &&& final(cursor)@[0] == SerializablePoint::spec_from_point(w.point@)
                &&& forall|i: int|
                    1 <= i < final(cursor)@.len() ==> final(cursor)@[i] == old(cursor)@[i - 1]
                &&& w.cursor_bytes@ == spec_encode(final(cursor)@)
            },
            Err(e) => {
                &&& e == SlurpError::ProtocolViolation
                &&& body_point_of(body@) is None
                &&& final(cursor)@ == old(cursor)@
            },
        },
{
    match body_point(body) {
        Some(point) => {
            let path = artifact_path(directory, &point);
            let p = point.clone();
            cursor.add_point(point);
            let cursor_bytes = cursor_encode(cursor);
            Ok(BodyWrite { point: p, path, cursor_bytes })
        },
        None => Err(SlurpError::ProtocolViolation),
    }
}

/// The cursor a session starts from: the persisted cursor when one was
/// read from disk, else a window holding the configured fallback point,
/// else a window holding the origin.  A persisted cursor that fails to
/// decode is corrupt, and fatal: history is not silently discarded.
pub fn resume_cursor(cursor_file: Option<&Vec<u8>>, fallback_point: Option<&Point>) -> (r: Result<
    Cursor,
    SlurpError,
>)
    requires
        fallback_point matches Some(p) ==> p.wf(),
    ensures
        match r {
            Ok(c) => {
                &&& c.wf()
                &&& match cursor_file {
                    Some(bytes) => spec_decode(bytes@) == Some(c@),
                    None => {
                        &&& c@.len() == 1
                        &&& c@[0] == SerializablePoint::spec_from_point(
                            match fallback_point {
                                Some(p) => p@,
                                None => PointView::Origin,
                            },
                        )
                    },
                }
            },
            Err(e) => e == SlurpError::CursorCorrupt && (cursor_file matches Some(bytes)
                && spec_decode(bytes@) is None),
        },
{
    match cursor_file {
        Some(bytes) => crate::codec::cursor_decode(bytes),
        None => match fallback_point {
            Some(p) => Ok(Cursor::from_point(p.clone())),
            None => Ok(Cursor::from_point(Point::Origin)),
        },
    }
}

/// Replay determinism: the artifact files a header stream demands are a
/// function of the stream alone, so re-running over a byte-identical
/// stream plans byte-identical files.
pub proof fn lemma_rerun_writes_identical(
    directory: Seq<u8>,
    stream1: Seq<Seq<u8>>,
    stream2: Seq<Seq<u8>>,
)
    requires
        stream1 == stream2,
    ensures
        forall|i: int| 0 <= i < stream1.len()
            ==> #[trigger] spec_header_write(directory, stream1[i]) == spec_header_write(
            directory,
            stream2[i],
        ),
{
}

} // verus!
