//! The job description record and its strict binary wire format.
//!
//! A job description names the input tensor file, the model file, the
//! output destination and a thread count.  It arrives over an untrusted
//! channel as a schema-exact, non-self-describing binary encoding: each
//! path as a varint byte length followed by that many UTF-8 bytes, then
//! the thread count as a zig-zag varint.  Bytes after a complete record
//! are ignored, as the producing serializer never emits any.  Any other
//! shape is "not a job": the parser reports failure and leaves the
//! receiving record untouched.

use vstd::prelude::*;

use crate::utf8::is_utf8;
use crate::utf8::validate_utf8;
use crate::varint::decode_varint_u32;
use crate::varint::decode_varint_u64;
use crate::varint::encode_varint_u64;
use crate::varint::lemma_varint_cap_values;
use crate::varint::lemma_varint_incomplete;
use crate::varint::lemma_varint_prefix;
use crate::varint::lemma_varint_roundtrip;
use crate::varint::lemma_varint_value_bounded;
use crate::varint::lemma_varint_value_continuations;
use crate::varint::lemma_zigzag_roundtrip;
use crate::varint::unzigzag;
use crate::varint::varint_encoding;
use crate::varint::varint_value;
use crate::varint::zigzag;
use crate::varint::zigzag_decode;
use crate::varint::zigzag_encode;
use vstd::slice::slice_subrange;
use vstd::slice::slice_to_vec;

verus! {

/// Mathematical image of a job description: the three path fields as byte
/// sequences, and the thread count.
pub struct JobView {
    pub input: Seq<u8>,
    pub model: Seq<u8>,
    pub output: Seq<u8>,
    pub threads: i32,
}

impl JobView {
    /// The paths hold valid UTF-8 and fit the wire format's length prefix.
    pub open spec fn wf(self) -> bool {
        &&& is_utf8(self.input)
        &&& is_utf8(self.model)
        &&& is_utf8(self.output)
        &&& self.input.len() <= u64::MAX
        &&& self.model.len() <= u64::MAX
        &&& self.output.len() <= u64::MAX
    }
}

// ---------------------------------------------------------------------------
// Wire format
// ---------------------------------------------------------------------------

/// Encoding of one path field: varint byte length, then the bytes.
pub open spec fn field_encoding(f: Seq<u8>) -> Seq<u8> {
    varint_encoding(f.len()) + f
}

/// Canonical encoding of a whole job description.
pub open spec fn job_encoding(j: JobView) -> Seq<u8> {
    field_encoding(j.input) + field_encoding(j.model) + field_encoding(j.output)
        + varint_encoding(zigzag(j.threads) as nat)
}

/// Reads one path field from `s` at index `i`: the field's bytes and the
/// index after them, or `None` when the length prefix is malformed, the
/// buffer is too short, or the bytes are not valid UTF-8.
pub open spec fn field_value(s: Seq<u8>, i: int) -> Option<(Seq<u8>, int)> {
    match varint_value(s, i, 10, 1) {
        None => None,
        Some((len, j)) => if j + len <= s.len() && is_utf8(s.subrange(j, j + len)) {
            Some((s.subrange(j, j + len), j + len))
        } else {
            None
        },
    }
}

/// Reads a whole job description from the start of `s`: three path fields,
/// then the zig-zag varint thread count.  Trailing bytes are ignored.
pub open spec fn job_value(s: Seq<u8>) -> Option<JobView> {
    match field_value(s, 0) {
        None => None,
        Some((input, i1)) => match field_value(s, i1) {
            None => None,
            Some((model, i2)) => match field_value(s, i2) {
                None => None,
                Some((output, i3)) => match varint_value(s, i3, 5, 15) {
                    None => None,
                    Some((z, _)) => Some(
                        JobView { input, model, output, threads: unzigzag(z as u32) },
                    ),
                },
            },
        },
    }
}

// ---------------------------------------------------------------------------
// The record
// ---------------------------------------------------------------------------

/// A single inference job: where to read the input tensor, where to read
/// the model, where to write the output tensor, and how many backend
/// worker threads to use (`-1` leaves the backend's default in place).
/// Paths are opaque UTF-8 byte strings to this library; resolving them is
/// the surrounding system's concern.
pub struct TfLiteInferenceService {
    /// Path of the file holding the raw input tensor bytes.
    pub input_tensor_path: Vec<u8>,
    /// Path of the file holding the serialized model.
    pub model_path: Vec<u8>,
    /// Path of the output tensor file, relative to a fixed root.
    pub output_tensor_path: Vec<u8>,
    /// Worker thread count handed to the backend.
    pub num_threads: i32,
}

impl View for TfLiteInferenceService {
    type V = JobView;

    open spec fn view(&self) -> JobView {
        JobView {
            input: self.input_tensor_path@,
            model: self.model_path@,
            output: self.output_tensor_path@,
            threads: self.num_threads,
        }
    }
}

impl TfLiteInferenceService {
    pub open spec fn wf(&self) -> bool {
        self@.wf()
    }

    /// Creates the default record: empty paths, backend-default threads.
    pub fn new() -> (r: Self)
        ensures
            r@.input.len() == 0,
            r@.model.len() == 0,
            r@.output.len() == 0,
            r@.threads == -1,
            r.wf(),
    {
        TfLiteInferenceService {
            input_tensor_path: Vec::new(),
            model_path: Vec::new(),
            output_tensor_path: Vec::new(),
            num_threads: -1,
        }
    }

    /// Tries to replace this record by one parsed from `input`.  Succeeds
    /// exactly when `input` starts with a complete well-formed encoding;
    /// any failure leaves the record untouched.
    pub fn try_parse(&mut self, input: &[u8]) -> (ok: bool)
        ensures
            ok <==> job_value(input@) is Some,
            ok ==> job_value(input@) == Some(final(self)@) && final(self).wf(),
            !ok ==> *final(self) == *old(self),
    {
        match decode_job(input) {
            Some(d) => {
                *self = d;
                true
            },
            None => false,
        }
    }

    /// Produces the canonical wire encoding of this record.
    pub fn encode(&self) -> (r: Vec<u8>)
        ensures
            r@ == job_encoding(self@),
    {
        let mut out: Vec<u8> = Vec::new();
        encode_field(&self.input_tensor_path, &mut out);
        encode_field(&self.model_path, &mut out);
        encode_field(&self.output_tensor_path, &mut out);
        encode_varint_u64(zigzag_encode(self.num_threads) as u64, &mut out);
        proof {
            assert(out@ =~= job_encoding(self@));
        }
        out
    }
}

// ---------------------------------------------------------------------------
// Executable codec
// ---------------------------------------------------------------------------

/// Appends the wire encoding of one path field to `out`.
fn encode_field(f: &Vec<u8>, out: &mut Vec<u8>)
    ensures
        final(out)@ == old(out)@ + field_encoding(f@),
{
    encode_varint_u64(f.len() as u64, out);
    let ghost prefix = out@;
    let mut k: usize = 0;
    while k < f.len()
        invariant
            k <= f@.len(),
            out@ == prefix + f@.subrange(0, k as int),
        decreases f@.len() - k,
    {
        out.push(f[k]);
        assert(out@ =~= prefix + f@.subrange(0, k + 1));
        k = k + 1;
    }
    assert(final(out)@ =~= old(out)@ + field_encoding(f@));
}

/// Reads one path field from `s` at `pos`.
fn decode_field(s: &[u8], pos: usize) -> (r: Option<(Vec<u8>, usize)>)
    ensures
        (r is None) == (field_value(s@, pos as int) is None),
        r matches Some((f, j)) ==> field_value(s@, pos as int) == Some((f@, j as int)) && j
            <= s@.len() && is_utf8(f@) && f@.len() <= u64::MAX,
{
    match decode_varint_u64(s, pos) {
        None => None,
        Some((len, j)) => {
            proof {
                lemma_varint_value_bounded(s@, pos as int, 10, 1);
            }
            if len <= (s.len() - j) as u64 {
                let end = j + (len as usize);
                let sub = slice_subrange(s, j, end);
                if validate_utf8(sub) {
                    Some((slice_to_vec(sub), end))
                } else {
                    None
                }
            } else {
                None
            }
        },
    }
}

/// Reads a whole job description from the start of `s`.
pub fn decode_job(s: &[u8]) -> (r: Option<TfLiteInferenceService>)
    ensures
        (r is None) == (job_value(s@) is None),
        r matches Some(d) ==> job_value(s@) == Some(d@) && d.wf(),
{
    let (input, i1) = match decode_field(s, 0) {
        None => {
            return None;
        },
        Some(p) => p,
    };
    let (model, i2) = match decode_field(s, i1) {
        None => {
            return None;
        },
        Some(p) => p,
    };
    let (output, i3) = match decode_field(s, i2) {
        None => {
            return None;
        },
        Some(p) => p,
    };
    let z = match decode_varint_u32(s, i3) {
        None => {
            return None;
        },
        Some((z, _)) => z,
    };
    Some(
        TfLiteInferenceService {
            input_tensor_path: input,
            model_path: model,
            output_tensor_path: output,
            num_threads: zigzag_decode(z),
        },
    )
}

// ---------------------------------------------------------------------------
// Round trip
// ---------------------------------------------------------------------------

/// A field embedded in a larger buffer reads back as itself.
proof fn lemma_field_roundtrip(s: Seq<u8>, i: int, f: Seq<u8>)
    requires
        0 <= i,
        f.len() <= u64::MAX,
        is_utf8(f),
        i + field_encoding(f).len() <= s.len(),
        s.subrange(i, i + field_encoding(f).len()) == field_encoding(f),
    ensures
        field_value(s, i) == Some((f, i + field_encoding(f).len())),
{
    lemma_varint_cap_values();
    let lv = varint_encoding(f.len());
    let fe = field_encoding(f);
    assert(fe == lv + f);
    assert(s.subrange(i, i + lv.len() as int) =~= lv) by {
        assert forall|k: int| 0 <= k < lv.len() implies s.subrange(i, i + lv.len() as int)[k]
            == lv[k] by {
            assert(s.subrange(i, i + fe.len() as int)[k] == fe[k]);
        }
    }
    lemma_varint_roundtrip(s, i, f.len(), 10, 1);
    let j = i + lv.len() as int;
    assert(varint_value(s, i, 10, 1) == Some((f.len(), j)));
    assert(s.subrange(j, j + f.len() as int) =~= f) by {
        assert forall|k: int| 0 <= k < f.len() implies s.subrange(j, j + f.len() as int)[k]
            == f[k] by {
            assert(s.subrange(i, i + fe.len() as int)[lv.len() + k] == fe[lv.len() + k]);
        }
    }
}

/// How the encoding of a well-formed job description reads back, field by
/// field: each field at its own offset, and the thread-count varint
/// ending exactly at the buffer's end.
proof fn lemma_job_fields(j: JobView)
    requires
        j.wf(),
    ensures
        ({
            let s = job_encoding(j);
            let l1 = field_encoding(j.input).len() as int;
            let l2 = field_encoding(j.model).len() as int;
            let l3 = field_encoding(j.output).len() as int;
            &&& field_value(s, 0) == Some((j.input, l1))
            &&& field_value(s, l1) == Some((j.model, l1 + l2))
            &&& field_value(s, l1 + l2) == Some((j.output, l1 + l2 + l3))
            &&& varint_value(s, l1 + l2 + l3, 5, 15) == Some(
                (zigzag(j.threads) as nat, s.len() as int),
            )
            &&& s.len() == l1 + l2 + l3 + varint_encoding(zigzag(j.threads) as nat).len()
        }),
{
    let e1 = field_encoding(j.input);
    let e2 = field_encoding(j.model);
    let e3 = field_encoding(j.output);
    let e4 = varint_encoding(zigzag(j.threads) as nat);
    let s = job_encoding(j);
    let l1 = e1.len() as int;
    let l2 = e2.len() as int;
    let l3 = e3.len() as int;
    let l4 = e4.len() as int;
    assert(s == e1 + e2 + e3 + e4);
    assert(s.len() == l1 + l2 + l3 + l4);
    assert(s.subrange(0, l1) =~= e1);
    lemma_field_roundtrip(s, 0, j.input);
    assert(s.subrange(l1, l1 + l2) =~= e2);
    lemma_field_roundtrip(s, l1, j.model);
    assert(s.subrange(l1 + l2, l1 + l2 + l3) =~= e3);
    lemma_field_roundtrip(s, l1 + l2, j.output);
    lemma_varint_cap_values();
    assert(s.subrange(l1 + l2 + l3, l1 + l2 + l3 + l4) =~= e4);
    lemma_varint_roundtrip(s, l1 + l2 + l3, zigzag(j.threads) as nat, 5, 15);
}

/// Parse round trip: the canonical encoding of any well-formed job
/// description decodes back to exactly that description.
pub proof fn lemma_job_roundtrip(j: JobView)
    requires
        j.wf(),
    ensures
        job_value(job_encoding(j)) == Some(j),
{
    lemma_job_fields(j);
    lemma_zigzag_roundtrip(j.threads);
}

// ---------------------------------------------------------------------------
// Truncation
// ---------------------------------------------------------------------------

/// Shortening a buffer behind a field's last byte does not change how the
/// field reads.
proof fn lemma_field_prefix(s: Seq<u8>, t: Seq<u8>, i: int)
    requires
        0 <= i,
        t.len() <= s.len(),
        t == s.subrange(0, t.len() as int),
        field_value(s, i) is Some,
        field_value(s, i)->Some_0.1 <= t.len(),
    ensures
        field_value(t, i) == field_value(s, i),
{
    let (len, m) = varint_value(s, i, 10, 1)->Some_0;
    lemma_varint_value_bounded(s, i, 10, 1);
    lemma_varint_prefix(s, t, i, 10, 1);
    assert(t.subrange(m, m + len) =~= s.subrange(m, m + len)) by {
        assert forall|k: int| 0 <= k < len implies #[trigger] t.subrange(m, m + len)[k]
            == s.subrange(m, m + len)[k] by {
            assert(t[m + k] == s[m + k]);
        }
    }
}

/// A buffer cut before a field's last byte holds no field at its offset.
proof fn lemma_field_truncated(s: Seq<u8>, t: Seq<u8>, i: int)
    requires
        0 <= i,
        t.len() <= s.len(),
        t == s.subrange(0, t.len() as int),
        field_value(s, i) is Some,
        field_value(s, i)->Some_0.1 > t.len(),
    ensures
        field_value(t, i) is None,
{
    let (len, m) = varint_value(s, i, 10, 1)->Some_0;
    lemma_varint_value_bounded(s, i, 10, 1);
    if m <= t.len() {
        lemma_varint_prefix(s, t, i, 10, 1);
    } else {
        lemma_varint_value_continuations(s, i, 10, 1);
        assert(forall|k: int| i <= k < t.len() ==> t[k] >= 128) by {
            assert forall|k: int| i <= k < t.len() implies t[k] >= 128 by {
                assert(t[k] == s[k]);
            }
        }
        lemma_varint_incomplete(t, i, 10, 1);
    }
}

/// Truncation is always detected: no strict prefix of the encoding of a
/// well-formed job description is itself a job.
pub proof fn lemma_truncated_encoding_rejected(j: JobView, n: int)
    requires
        j.wf(),
        0 <= n < job_encoding(j).len(),
    ensures
        job_value(job_encoding(j).subrange(0, n)) is None,
{
    let s = job_encoding(j);
    let t = s.subrange(0, n);
    lemma_job_fields(j);
    let l1 = field_encoding(j.input).len() as int;
    let l2 = field_encoding(j.model).len() as int;
    let l3 = field_encoding(j.output).len() as int;
    let p = l1 + l2 + l3;
    if n < l1 {
        lemma_field_truncated(s, t, 0);
    } else if n < l1 + l2 {
        lemma_field_prefix(s, t, 0);
        lemma_field_truncated(s, t, l1);
    } else if n < p {
        lemma_field_prefix(s, t, 0);
        lemma_field_prefix(s, t, l1);
        lemma_field_truncated(s, t, l1 + l2);
    } else {
        lemma_field_prefix(s, t, 0);
        lemma_field_prefix(s, t, l1);
        lemma_field_prefix(s, t, l1 + l2);
        lemma_varint_value_continuations(s, p, 5, 15);
        assert(forall|k: int| p <= k < t.len() ==> t[k] >= 128) by {
            assert forall|k: int| p <= k < t.len() implies t[k] >= 128 by {
                assert(t[k] == s[k]);
            }
        }
        lemma_varint_incomplete(t, p, 5, 15);
    }
}

} // verus!

