//! Job records: the request a job carries, its lifecycle state, and the
//! canonical text form of job ids. Ids are 128-bit values displayed in the
//! usual hyphenated hexadecimal form.
use vstd::prelude::*;
use vstd::string::StringExecFns;
use crate::models::{JobStatus, JobStatusResponse};
use crate::config::chars_to_string;

verus! {

/// Job request data.
#[derive(Debug)]
pub struct JobRequest {
    pub city: String,
    pub country: String,
    pub theme: String,
    pub distance: u32,
}

impl Clone for JobRequest {
    fn clone(&self) -> (r: Self)
        ensures
            r.city@ == self.city@,
            r.country@ == self.country@,
            r.theme@ == self.theme@,
            r.distance == self.distance,
    {
        JobRequest {
            city: self.city.clone(),
            country: self.country.clone(),
            theme: self.theme.clone(),
            distance: self.distance,
        }
    }
}

/// Internal job state.
#[derive(Debug)]
pub struct JobState {
    pub id: u128,
    pub status: JobStatus,
    pub progress_milli: u32,
    pub current_step: Option<String>,
    pub message: Option<String>,
    pub output_path: Option<String>,
    pub error: Option<String>,
    pub created_at: u64,
    pub updated_at: u64,
    pub request: JobRequest,
}

/// The lowercase hexadecimal digit of a value below 16.
pub open spec fn hex_digit_lower(d: nat) -> char {
    if d < 10 {
        ((48 + d) as u8) as char
    } else {
        ((87 + d) as u8) as char
    }
}

/// The 32 hexadecimal digits of a 128-bit id, most significant first.
pub open spec fn hex32(id: u128) -> Seq<char> {
    Seq::new(32, |i: int| hex_digit_lower(((id >> (((31 - i) * 4) as u128)) & 0xf) as nat))
}

/// The canonical hyphenated form of a job id: 8-4-4-4-12 hexadecimal
/// digits.
pub open spec fn id_str_spec(id: u128) -> Seq<char> {
    let h = hex32(id);
    h.subrange(0, 8) + seq!['-'] + h.subrange(8, 12) + seq!['-'] + h.subrange(12, 16) + seq!['-']
        + h.subrange(16, 20) + seq!['-'] + h.subrange(20, 32)
}

fn hex_char_lower(d: u64) -> (r: char)
    requires
        d < 16,
    ensures
        r == hex_digit_lower(d as nat),
{
    if d < 10 {
        (48 + d as u8) as char
    } else {
        (87 + d as u8) as char
    }
}

/// Format a job id in its canonical hyphenated hexadecimal form.
pub fn format_job_id(id: u128) -> (r: String)
    ensures
        r@ == id_str_spec(id),
{
    let mut digits: Vec<char> = Vec::new();
    let mut k: usize = 0;
    while k < 32
        invariant
            k <= 32,
            digits@.len() == k,
            forall|i: int| 0 <= i < k ==> digits@[i] == hex32(id)[i],
        decreases 32 - k,
    {
        let shift: u128 = ((31 - k) * 4) as u128;
        let wide: u128 = (id >> shift) & 0xf;
        assert(wide < 16) by (bit_vector)
            requires
                wide == (id >> shift) & 0xf,
        ;
        let nibble: u64 = wide as u64;
        digits.push(hex_char_lower(nibble));
        proof {
            assert(hex32(id)[k as int] == hex_digit_lower(wide as nat));
        }
        k = k + 1;
    }
    proof {
        assert(digits@ =~= hex32(id));
    }
    let mut out: Vec<char> = Vec::new();
    let mut i: usize = 0;
    while i < 32
        invariant
            i <= 32,
            digits@ == hex32(id),
            digits@.len() == 32,
            out@.len() == i + if i > 20 {
                4int
            } else if i > 16 {
                3int
            } else if i > 12 {
                2int
            } else if i > 8 {
                1int
            } else {
                0int
            },
            out@ == id_str_spec(id).take(out@.len() as int),
        decreases 32 - i,
    {
        if i == 8 || i == 12 || i == 16 || i == 20 {
            out.push('-');
        }
        out.push(digits[i]);
        proof {
            assert(out@ =~= id_str_spec(id).take(out@.len() as int));
        }
        i = i + 1;
    }
    proof {
        assert(out@ =~= id_str_spec(id));
    }
    chars_to_string(out)
}

/// The download reference of a job id.
pub open spec fn download_url_spec(id: u128) -> Seq<char> {
    "/api/posters/"@ + id_str_spec(id) + "/download"@
}

impl JobState {
    /// A freshly created job: queued, no progress, both timestamps at
    /// creation time.
    pub fn new(id: u128, request: JobRequest, now: u64) -> (r: Self)
        ensures
            r.id == id,
            r.status == JobStatus::Queued,
            r.progress_milli == 0,
            r.current_step is None,
            r.message matches Some(m) && m@ == "Job queued"@,
            r.output_path is None,
            r.error is None,
            r.created_at == now,
            r.updated_at == now,
            r.request == request,
    {
        JobState {
            id,
            status: JobStatus::Queued,
            progress_milli: 0,
            current_step: None,
            message: Some(String::from_str("Job queued")),
            output_path: None,
            error: None,
            created_at: now,
            updated_at: now,
            request,
        }
    }

    /// The externally visible snapshot of this job: its fields, with the
    /// download reference derived from the id once an output exists.
    pub fn to_response(&self) -> (r: JobStatusResponse)
        ensures
            r.job_id@ == id_str_spec(self.id),
            r.status == self.status,
            r.progress_milli == self.progress_milli,
            match self.current_step {
                Some(s) => r.current_step matches Some(x) && x@ == s@,
                None => r.current_step is None,
            },
            match self.message {
                Some(s) => r.message matches Some(x) && x@ == s@,
                None => r.message is None,
            },
            match self.output_path {
                Some(_) => r.download_url matches Some(u) && u@ == download_url_spec(self.id),
                None => r.download_url is None,
            },
            match self.error {
                Some(s) => r.error matches Some(x) && x@ == s@,
                None => r.error is None,
            },
    {
        let download_url = match &self.output_path {
            Some(_) => {
                let mut u = String::from_str("/api/posters/");
                let ids = format_job_id(self.id);
                u.append(ids.as_str());
                u.append("/download");
                Some(u)
            },
            None => None,
        };
        JobStatusResponse {
            job_id: format_job_id(self.id),
            status: self.status,
            progress_milli: self.progress_milli,
            current_step: clone_opt_string(&self.current_step),
            message: clone_opt_string(&self.message),
            download_url,
            error: clone_opt_string(&self.error),
        }
    }
}

/// Copy an optional string, keeping its characters.
pub fn clone_opt_string(s: &Option<String>) -> (r: Option<String>)
    ensures
        match s {
            Some(x) => r matches Some(y) && y@ == x@,
            None => r is None,
        },
{
    match s {
        Some(x) => Some(x.clone()),
        None => None,
    }
}

} // verus!
