//! Sandbox decision logic: everything the task sandbox decides about a run,
//! separated from the process, file and network plumbing that carries it
//! out.
//!
//! A run resolves its script bytes (verifying the content hash of a
//! downloaded script), screens the input filenames against path traversal,
//! accounts stdout/stderr bytes against hard caps, checks the workspace
//! size, and arbitrates which monitor killed the child.  Each of those
//! decisions is a verified function here; reading pipes, spawning children
//! and measuring directories stay with the caller, who feeds the observed
//! values in.

use vstd::prelude::*;

use sha2::Digest;

use crate::text::contains_seq;
use crate::text::matches_at;
use crate::text::str_eq;

verus! {

/// The digest sha2 computes for these bytes: 32 bytes, a function of the
/// input bytes alone.
pub uninterp spec fn sha256_of(data: Seq<u8>) -> Seq<u8>;

/// Relies on sha2's Sha256: the digest is 32 bytes and depends on the
/// input bytes alone.
#[verifier::external_body]
fn sha256_digest(data: &[u8]) -> (r: Vec<u8>)
    ensures
        r@ == sha256_of(data@),
        r@.len() == 32,
{
    let mut hasher = sha2::Sha256::new();
    hasher.update(data);
    hasher.finalize().to_vec()
}

pub const HEX_DIGITS: [char; 16] = [
    '0',
    '1',
    '2',
    '3',
    '4',
    '5',
    '6',
    '7',
    '8',
    '9',
    'a',
    'b',
    'c',
    'd',
    'e',
    'f',
];

/// The lower-case hex encoding of a byte sequence: two digits per byte.
pub open spec fn spec_to_hex(data: Seq<u8>) -> Seq<char>
    decreases data.len(),
{
    if data.len() == 0 {
        Seq::empty()
    } else {
        seq![
            HEX_DIGITS@[(data.first() >> 4) as int],
            HEX_DIGITS@[(data.first() & 0x0f) as int],
        ] + spec_to_hex(data.drop_first())
    }
}

/// The hex digest of these bytes: 64 lower-case hex digits.
pub open spec fn sha256_hex_of(data: Seq<u8>) -> Seq<char> {
    spec_to_hex(sha256_of(data))
}

/// Encode bytes as lower-case hex, two digits per byte.
pub fn to_hex(data: &[u8]) -> (r: String)
    ensures
        r@ == spec_to_hex(data@),
        r@.len() == 2 * data@.len(),
{
    let len = data.len();
    let mut out = String::new();
    proof {
        assert(data@.skip(0) =~= data@);
    }
    let mut i: usize = 0;
    while i < len
        invariant
            i <= len,
            len == data@.len(),
            spec_to_hex(data@) =~= out@ + spec_to_hex(data@.skip(i as int)),
            out@.len() == 2 * i,
        decreases len - i,
    {
        let b = data[i];
        assert((b >> 4) < 16 && (b & 0x0f) < 16) by (bit_vector);
        let hi = HEX_DIGITS[(b >> 4) as usize];
        let lo = HEX_DIGITS[(b & 0x0f) as usize];
        let mut pair = String::new();
        pair.push(hi);
        pair.push(lo);
        out.append(pair.as_str());
        proof {
            assert(data@.skip(i as int).first() == data@[i as int]);
            assert(data@.skip(i as int).drop_first() =~= data@.skip(i + 1));
            assert(pair@ =~= seq![
                HEX_DIGITS@[(data@[i as int] >> 4) as int],
                HEX_DIGITS@[(data@[i as int] & 0x0f) as int],
            ]);
        }
        i = i + 1;
    }
    proof {
        assert(data@.skip(len as int) =~= Seq::<u8>::empty());
        assert(spec_to_hex(data@) =~= out@);
    }
    out
}

/// The hex digest of these bytes, as reports and payloads carry it.
pub fn hash_bytes(data: &[u8]) -> (r: String)
    ensures
        r@ == sha256_hex_of(data@),
        r@.len() == 64,
{
    let digest = sha256_digest(data);
    to_hex(digest.as_slice())
}

/// Sandbox limits for one run.  Durations are carried in milliseconds.
pub struct SandboxConfig {
    pub python_bin: String,
    pub timeout_ms: u64,
    pub workspace_limit_bytes: u64,
    pub stdout_limit_bytes: u64,
    pub stderr_limit_bytes: u64,
}

/// The tighter server-side sandbox limits the validator re-runs under.
pub struct ServerSandboxConfig {
    pub python_bin: String,
    pub timeout_ms: u64,
    pub workspace_limit_bytes: u64,
    pub stdout_limit_bytes: u64,
    pub stderr_limit_bytes: u64,
}

/// Why a run failed before or during execution.
#[derive(Clone, Copy, PartialEq, Eq, Structural, Debug)]
pub enum SandboxError {
    MissingScript,
    ScriptHashMismatch,
    InvalidInputFilename,
    WorkspaceLimitExceeded,
    StdoutLimitExceeded,
    StderrLimitExceeded,
}

impl SandboxError {
    /// The message each failure reports.
    pub fn as_str(&self) -> (r: &'static str)
        ensures
            *self == SandboxError::MissingScript ==> r@ == "missing script"@,
            *self == SandboxError::ScriptHashMismatch ==> r@ == "script hash mismatch"@,
            *self == SandboxError::InvalidInputFilename ==> r@ == "invalid input filename"@,
            *self == SandboxError::WorkspaceLimitExceeded ==> r@
                == "workspace size limit exceeded"@,
            *self == SandboxError::StdoutLimitExceeded ==> r@ == "stdout limit exceeded"@,
            *self == SandboxError::StderrLimitExceeded ==> r@ == "stderr limit exceeded"@,
    {
        match self {
            SandboxError::MissingScript => "missing script",
            SandboxError::ScriptHashMismatch => "script hash mismatch",
            SandboxError::InvalidInputFilename => "invalid input filename",
            SandboxError::WorkspaceLimitExceeded => "workspace size limit exceeded",
            SandboxError::StdoutLimitExceeded => "stdout limit exceeded",
            SandboxError::StderrLimitExceeded => "stderr limit exceeded",
        }
    }
}

/// A character an input filename may contain: ASCII alphanumeric, `_`, `-`
/// or `.`.
pub open spec fn is_filename_char(c: char) -> bool {
    ||| 48 <= c as u32 <= 57
    ||| 65 <= c as u32 <= 90
    ||| 97 <= c as u32 <= 122
    ||| c as u32 == 95
    ||| c as u32 == 45
    ||| c as u32 == 46
}

/// A safe input filename: non-empty, made only of filename characters (so
/// free of `/` and `\`), and containing no `..` traversal.
pub open spec fn spec_safe_filename(s: Seq<char>) -> bool {
    &&& s.len() >= 1
    &&& forall|i: int| 0 <= i < s.len() ==> is_filename_char(#[trigger] s[i])
    &&& !contains_seq(s, ".."@)
}

/// Accept an input filename only when it is non-empty, matches the filename
/// character class and contains no `..`.  This is the only defence against
/// path traversal and runs before any write.
pub fn is_safe_filename(name: &str) -> (r: bool)
    ensures
        r == spec_safe_filename(name@),
{
    proof {
        reveal_strlit("..");
    }
    let len = name.unicode_len();
    if len == 0 {
        return false;
    }
    let mut i: usize = 0;
    while i < len
        invariant
            i <= len,
            len == name@.len(),
            forall|j: int| 0 <= j < i ==> is_filename_char(#[trigger] name@[j]),
        decreases len - i,
    {
        let c = name.get_char(i);
        let u = c as u32;
        let ok = (48 <= u && u <= 57) || (65 <= u && u <= 90) || (97 <= u && u <= 122) || u == 95
            || u == 45 || u == 46;
        if !ok {
            return false;
        }
        i = i + 1;
    }
    let mut p: usize = 0;
    while p < len - 1
        invariant
            len == name@.len(),
            len >= 1,
            p <= len,
            forall|q: int| 0 <= q < p ==> !((#[trigger] name@[q]) == '.' && name@[q + 1] == '.'),
        decreases len - p,
    {
        if name.get_char(p) == '.' && name.get_char(p + 1) == '.' {
            proof {
                reveal_strlit("..");
                assert(name@.subrange(p as int, p + 2) =~= ".."@);
                assert(matches_at(name@, ".."@, p as int));
            }
            return false;
        }
        p = p + 1;
    }
    proof {
        reveal_strlit("..");
        assert forall|at: int| !matches_at(name@, ".."@, at) by {
            if 0 <= at && at + 2 <= name@.len() {
                assert(at < p);
                if name@.subrange(at, at + 2) == ".."@ {
                    assert(name@.subrange(at, at + 2)[0] == name@[at]);
                    assert(name@.subrange(at, at + 2)[1] == name@[at + 1]);
                    assert(name@[at] == '.' && name@[at + 1] == '.');
                }
            }
        }
    }
    true
}

/// Screen every input filename before anything is written to the
/// workspace.  Succeeds exactly when every name is safe.
pub fn check_input_names(inputs: &Vec<(String, String)>) -> (r: Result<(), SandboxError>)
    ensures
        r matches Ok(_) <==> forall|i: int|
            0 <= i < inputs@.len() ==> spec_safe_filename((#[trigger] inputs@[i]).0@),
        r matches Err(e) ==> e == SandboxError::InvalidInputFilename,
{
    let len = inputs.len();
    let mut i: usize = 0;
    while i < len
        invariant
            i <= len,
            len == inputs@.len(),
            forall|j: int| 0 <= j < i ==> spec_safe_filename((#[trigger] inputs@[j]).0@),
        decreases len - i,
    {
        if !is_safe_filename(inputs[i].0.as_str()) {
            return Err(SandboxError::InvalidInputFilename);
        }
        i = i + 1;
    }
    Ok(())
}

/// Resolve the bytes a run will execute.  The inline script wins; a
/// downloaded script is accepted only when its digest matches the content
/// hash the payload carries; a payload with neither script fails.
pub fn resolve_script_bytes(
    inline: Option<Vec<u8>>,
    fetched: Option<Vec<u8>>,
    expected_sha256: Option<&String>,
) -> (r: Result<Vec<u8>, SandboxError>)
    ensures
        inline matches Some(b) ==> (r matches Ok(rb) && rb@ == b@),
        inline is None ==> (match fetched {
            Some(b) => match expected_sha256 {
                Some(e) => if sha256_hex_of(b@) == e@ {
                    r matches Ok(rb) && rb@ == b@
                } else {
                    r == Err::<Vec<u8>, SandboxError>(SandboxError::ScriptHashMismatch)
                },
                None => r matches Ok(rb) && rb@ == b@,
            },
            None => r == Err::<Vec<u8>, SandboxError>(SandboxError::MissingScript),
        }),
{
    match inline {
        Some(b) => Ok(b),
        None => {
            match fetched {
                Some(b) => {
                    match expected_sha256 {
                        Some(e) => {
                            let actual = hash_bytes(b.as_slice());
                            if str_eq(actual.as_str(), e.as_str()) {
                                Ok(b)
                            } else {
                                Err(SandboxError::ScriptHashMismatch)
                            }
                        },
                        None => Ok(b),
                    }
                },
                None => Err(SandboxError::MissingScript),
            }
        },
    }
}

/// A captured output stream under a hard byte cap.
pub struct OutputAccumulator {
    pub data: Vec<u8>,
    pub limit_bytes: u64,
}

impl OutputAccumulator {
    /// The cap holds over everything accumulated so far.
    pub open spec fn wf(self) -> bool {
        self.data@.len() <= self.limit_bytes
    }

    /// An empty buffer under the given cap.
    pub fn new(limit_bytes: u64) -> (r: OutputAccumulator)
        ensures
            r.wf(),
            r.data@.len() == 0,
            r.limit_bytes == limit_bytes,
    {
        OutputAccumulator { data: Vec::new(), limit_bytes }
    }

    /// Account one chunk read from the stream.  The chunk is kept only when
    /// the cap still holds afterwards; on a breach the buffer is dropped and
    /// the caller must kill the child.
    pub fn push_chunk(&mut self, chunk: &[u8]) -> (r: bool)
        requires
            old(self).wf(),
        ensures
            final(self).wf(),
            final(self).limit_bytes == old(self).limit_bytes,
            r == (old(self).data@.len() + chunk@.len() <= old(self).limit_bytes),
            r ==> final(self).data@ == old(self).data@ + chunk@,
            !r ==> final(self).data@ == old(self).data@,
    {
        let total: u128 = (self.data.len() as u128) + (chunk.len() as u128);
        if total > self.limit_bytes as u128 {
            return false;
        }
        let mut j: usize = 0;
        let clen = chunk.len();
        while j < clen
            invariant
                j <= clen,
                clen == chunk@.len(),
                self.limit_bytes == old(self).limit_bytes,
                self.data@ == old(self).data@ + chunk@.take(j as int),
            decreases clen - j,
        {
            self.data.push(chunk[j]);
            proof {
                assert(old(self).data@ + chunk@.take(j + 1) =~= (old(self).data@ + chunk@.take(
                    j as int,
                )).push(chunk@[j as int]));
            }
            j = j + 1;
        }
        proof {
            assert(chunk@.take(clen as int) =~= chunk@);
        }
        true
    }

    /// The bytes accumulated so far.
    pub fn byte_len(&self) -> (r: usize)
        ensures
            r == self.data@.len(),
    {
        self.data.len()
    }
}

/// Cap enforcement: whatever was read, an accumulator that kept the cap at
/// every step holds at most its limit — the reported byte count never
/// exceeds the configured cap.
pub proof fn lemma_cap_enforcement(acc: OutputAccumulator)
    requires
        acc.wf(),
    ensures
        acc.data@.len() <= acc.limit_bytes,
{
}

/// The workspace is within its size cap.  The caller measures the
/// directory and kills the child when this returns false.
pub fn workspace_within_limit(size_bytes: u64, limit_bytes: u64) -> (r: bool)
    ensures
        r == (size_bytes <= limit_bytes),
{
    size_bytes <= limit_bytes
}

/// The resource throttle: a run is killed only after the caps are exceeded
/// for three consecutive samples.
pub struct ThrottleMonitor {
    pub over_count: u8,
}

impl ThrottleMonitor {
    pub fn new() -> (r: ThrottleMonitor)
        ensures
            r.over_count == 0u8,
    {
        ThrottleMonitor { over_count: 0 }
    }

    /// Account one sample.  Returns true — kill the child — on the third
    /// consecutive sample over the caps; any sample within the caps resets
    /// the streak.
    pub fn observe(&mut self, exceeded: bool) -> (kill: bool)
        requires
            old(self).over_count < 3,
        ensures
            !exceeded ==> final(self).over_count == 0u8 && !kill,
            exceeded ==> final(self).over_count == old(self).over_count + 1,
            exceeded ==> kill == (old(self).over_count == 2u8),
    {
        if exceeded {
            self.over_count = self.over_count + 1;
            self.over_count >= 3
        } else {
            self.over_count = 0;
            false
        }
    }
}

/// One metrics sample, in integer units: percentages and kilobytes.
pub struct MetricsSample {
    pub cpu_load_pct: Option<u64>,
    pub ram_used_kb: Option<u64>,
    pub ram_total_kb: Option<u64>,
    pub gpu_load_pct: Option<u64>,
}

/// Per-agent resource caps, in percent.
pub struct ResourceCaps {
    pub cpu_percent: Option<u64>,
    pub gpu_percent: Option<u64>,
    pub ram_percent: Option<u64>,
}

impl ResourceCaps {
    /// Is any cap configured at all?
    pub fn any_set(&self) -> (r: bool)
        ensures
            r == (self.cpu_percent is Some || self.gpu_percent is Some
                || self.ram_percent is Some),
    {
        self.cpu_percent.is_some() || self.gpu_percent.is_some() || self.ram_percent.is_some()
    }
}

/// The CPU cap is exceeded: both the cap and the reading exist and the
/// reading is above the cap.
pub open spec fn spec_cpu_exceeded(m: MetricsSample, caps: ResourceCaps) -> bool {
    caps.cpu_percent matches Some(limit) && m.cpu_load_pct matches Some(cur) && cur > limit
}

/// The RAM cap is exceeded: used over total, as a percentage, is above the
/// cap.  Compared without division: `used * 100 > limit * total`.
pub open spec fn spec_ram_exceeded(m: MetricsSample, caps: ResourceCaps) -> bool {
    &&& caps.ram_percent matches Some(limit)
    &&& m.ram_used_kb matches Some(used)
    &&& m.ram_total_kb matches Some(total)
    &&& used * 100 > limit * total
}

/// The GPU cap is exceeded.
pub open spec fn spec_gpu_exceeded(m: MetricsSample, caps: ResourceCaps) -> bool {
    caps.gpu_percent matches Some(limit) && m.gpu_load_pct matches Some(cur) && cur > limit
}

/// Some label in the list views to this text.
pub open spec fn label_in(labels: Seq<&str>, l: Seq<char>) -> bool {
    exists|k: int| 0 <= k < labels.len() && labels[k]@ == l
}

/// Which configured caps the sample exceeds, as dimension labels in the
/// order cpu, ram, gpu.
pub fn exceeded_limits(m: &MetricsSample, caps: &ResourceCaps) -> (r: Vec<&'static str>)
    ensures
        r@.len() <= 3,
        spec_cpu_exceeded(*m, *caps) <==> label_in(r@, "cpu"@),
        spec_ram_exceeded(*m, *caps) <==> label_in(r@, "ram"@),
        spec_gpu_exceeded(*m, *caps) <==> label_in(r@, "gpu"@),
        r@.len() == 0 <==> !spec_cpu_exceeded(*m, *caps) && !spec_ram_exceeded(*m, *caps)
            && !spec_gpu_exceeded(*m, *caps),
{
    proof {
        reveal_strlit("cpu");
        reveal_strlit("ram");
        reveal_strlit("gpu");
    }
    let mut out: Vec<&'static str> = Vec::new();
    let cpu_over = match (caps.cpu_percent, m.cpu_load_pct) {
        (Some(limit), Some(cur)) => cur > limit,
        _ => false,
    };
    if cpu_over {
        out.push("cpu");
    }
    let ram_over = match (caps.ram_percent, m.ram_used_kb, m.ram_total_kb) {
        (Some(limit), Some(used), Some(total)) => {
            proof {
                vstd::arithmetic::mul::lemma_mul_upper_bound(
                    limit as int,
                    u64::MAX as int,
                    total as int,
                    u64::MAX as int,
                );
                vstd::arithmetic::mul::lemma_mul_upper_bound(
                    used as int,
                    u64::MAX as int,
                    100int,
                    100int,
                );
            }
            (used as u128) * 100 > (limit as u128) * (total as u128)
        },
        _ => false,
    };
    if ram_over {
        out.push("ram");
    }
    let gpu_over = match (caps.gpu_percent, m.gpu_load_pct) {
        (Some(limit), Some(cur)) => cur > limit,
        _ => false,
    };
    if gpu_over {
        out.push("gpu");
    }
    proof {
        assert(cpu_over == spec_cpu_exceeded(*m, *caps));
        assert(ram_over == spec_ram_exceeded(*m, *caps)) by {
            match (caps.ram_percent, m.ram_used_kb, m.ram_total_kb) {
                (Some(limit), Some(used), Some(total)) => {
                    assert((used as u128) * 100 == used * 100);
                    assert((limit as u128) * (total as u128) == limit * total);
                },
                _ => {},
            }
        }
        assert(gpu_over == spec_gpu_exceeded(*m, *caps));
        if cpu_over {
            assert(out@[0]@ == "cpu"@);
            assert(label_in(out@, "cpu"@));
        }
        if ram_over {
            let idx: int = if cpu_over { 1 } else { 0 };
            assert(out@[idx]@ == "ram"@);
            assert(label_in(out@, "ram"@));
        }
        if gpu_over {
            let idx: int = out@.len() - 1;
            assert(out@[idx]@ == "gpu"@);
            assert(label_in(out@, "gpu"@));
        }
        if !cpu_over {
            assert(!label_in(out@, "cpu"@)) by {
                reveal_strlit("cpu");
                reveal_strlit("ram");
                reveal_strlit("gpu");
                assert("cpu"@[0] == 'c');
                assert("ram"@[0] == 'r');
                assert("gpu"@[0] == 'g');
                if label_in(out@, "cpu"@) {
                    let k = choose|k: int| 0 <= k < out@.len() && out@[k]@ == "cpu"@;
                    if ram_over && gpu_over {
                        assert(out@[0]@ == "ram"@ && out@[1]@ == "gpu"@);
                    } else if ram_over {
                        assert(out@[0]@ == "ram"@);
                    } else if gpu_over {
                        assert(out@[0]@ == "gpu"@);
                    }
                    assert(false);
                }
            }
        }
        if !ram_over {
            assert(!label_in(out@, "ram"@)) by {
                reveal_strlit("cpu");
                reveal_strlit("ram");
                reveal_strlit("gpu");
                assert("cpu"@[0] == 'c');
                assert("ram"@[0] == 'r');
                assert("gpu"@[0] == 'g');
                if label_in(out@, "ram"@) {
                    let k = choose|k: int| 0 <= k < out@.len() && out@[k]@ == "ram"@;
                    if cpu_over && gpu_over {
                        assert(out@[0]@ == "cpu"@ && out@[1]@ == "gpu"@);
                    } else if cpu_over {
                        assert(out@[0]@ == "cpu"@);
                    } else if gpu_over {
                        assert(out@[0]@ == "gpu"@);
                    }
                    assert(false);
                }
            }
        }
        if !gpu_over {
            assert(!label_in(out@, "gpu"@)) by {
                reveal_strlit("cpu");
                reveal_strlit("ram");
                reveal_strlit("gpu");
                assert("cpu"@[0] == 'c');
                assert("ram"@[0] == 'r');
                assert("gpu"@[0] == 'g');
                if label_in(out@, "gpu"@) {
                    let k = choose|k: int| 0 <= k < out@.len() && out@[k]@ == "gpu"@;
                    if cpu_over && ram_over {
                        assert(out@[0]@ == "cpu"@ && out@[1]@ == "ram"@);
                    } else if cpu_over {
                        assert(out@[0]@ == "cpu"@);
                    } else if ram_over {
                        assert(out@[0]@ == "ram"@);
                    }
                    assert(false);
                }
            }
        }
    }
    out
}

/// How a sandboxed child ended: a natural exit, or a kill by the first
/// monitor that fired.
#[derive(Clone, Copy, PartialEq, Eq, Structural, Debug)]
pub enum RunOutcome {
    ExitedOk,
    ExitedErr,
    KilledTimeout,
    KilledThrottled,
    KilledOutputLimit,
    KilledWorkspaceLimit,
}

impl RunOutcome {
    /// The status a run reports for each outcome.  Kills by the output and
    /// workspace monitors surface as `error`, with the monitor's message in
    /// the error field.
    pub fn status_str(&self) -> (r: &'static str)
        ensures
            *self == RunOutcome::ExitedOk ==> r@ == "ok"@,
            *self == RunOutcome::ExitedErr ==> r@ == "error"@,
            *self == RunOutcome::KilledTimeout ==> r@ == "timeout"@,
            *self == RunOutcome::KilledThrottled ==> r@ == "throttled"@,
            *self == RunOutcome::KilledOutputLimit ==> r@ == "error"@,
            *self == RunOutcome::KilledWorkspaceLimit ==> r@ == "error"@,
    {
        match self {
            RunOutcome::ExitedOk => "ok",
            RunOutcome::ExitedErr => "error",
            RunOutcome::KilledTimeout => "timeout",
            RunOutcome::KilledThrottled => "throttled",
            RunOutcome::KilledOutputLimit => "error",
            RunOutcome::KilledWorkspaceLimit => "error",
        }
    }
}

} // verus!
