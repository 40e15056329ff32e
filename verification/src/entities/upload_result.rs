//! Lifecycle states, the gateway's status response, and the terminal
//! upload result.

use vstd::prelude::*;
use crate::text::str_eq;

verus! {

/// The lifecycle state of one tracked submission. `UPLOADED` is the only
/// non-terminal state; `FINISHED` and `ABORTED` are terminal and are never
/// left once entered.
#[allow(non_camel_case_types)]
#[derive(PartialEq, Eq, Structural, Copy, Clone, Debug, Hash)]
pub enum Status {
    UPLOADED,
    FINISHED,
    ABORTED,
}

/// The wire label of a status, as the gateway reports it.
pub open spec fn label_spec(s: Status) -> Seq<char> {
    match s {
        Status::UPLOADED => "UPLOADED"@,
        Status::FINISHED => "FINISHED"@,
        Status::ABORTED => "ABORTED"@,
    }
}

/// The status a wire label denotes, if any; labels outside the three-state
/// enum denote nothing and are a gateway protocol violation.
pub open spec fn from_label_spec(s: Seq<char>) -> Option<Status> {
    if s == "UPLOADED"@ {
        Some(Status::UPLOADED)
    } else if s == "FINISHED"@ {
        Some(Status::FINISHED)
    } else if s == "ABORTED"@ {
        Some(Status::ABORTED)
    } else {
        None
    }
}

impl Status {
    /// A state is terminal when it is never left again.
    pub open spec fn is_terminal(self) -> bool {
        self != Status::UPLOADED
    }

    /// Renders the wire label of this status.
    pub fn label(&self) -> (r: &'static str)
        ensures
            r@ == label_spec(*self),
    {
        match self {
            Status::UPLOADED => "UPLOADED",
            Status::FINISHED => "FINISHED",
            Status::ABORTED => "ABORTED",
        }
    }

    /// Parses a wire label; `None` exactly on labels outside the enum.
    pub fn from_label(s: &str) -> (r: Option<Status>)
        ensures
            r == from_label_spec(s@),
    {
        if str_eq(s, "UPLOADED") {
            Some(Status::UPLOADED)
        } else if str_eq(s, "FINISHED") {
            Some(Status::FINISHED)
        } else if str_eq(s, "ABORTED") {
            Some(Status::ABORTED)
        } else {
            None
        }
    }
}

/// Parsing a rendered label always gives back the status it was rendered
/// from, and a label that parses re-renders to the same character sequence.
pub proof fn lemma_label_round_trip(st: Status, s: Seq<char>)
    ensures
        from_label_spec(label_spec(st)) == Some(st),
        from_label_spec(s) matches Some(t) ==> label_spec(t) == s,
{
    reveal_strlit("UPLOADED");
    reveal_strlit("FINISHED");
    reveal_strlit("ABORTED");
    assert("UPLOADED"@[0] == 'U');
    assert("FINISHED"@[0] == 'F');
    assert("ABORTED"@[0] == 'A');
    assert("UPLOADED"@ != "FINISHED"@);
    assert("UPLOADED"@ != "ABORTED"@);
    assert("FINISHED"@ != "ABORTED"@);
}

/// The gateway's answer to a submission or a poll: the tracking code of
/// the job and its current lifecycle state.
#[derive(Debug, Clone, PartialEq, Eq, Hash)]
pub struct UploadStatus {
    pub code: String,
    pub status: Status,
}

impl UploadStatus {
    pub fn new(code: String, status: Status) -> (r: Self)
        ensures
            r.code == code,
            r.status == status,
    {
        Self { code, status }
    }

    pub fn get_code(&self) -> (r: String)
        ensures
            r == self.code,
    {
        self.code.clone()
    }

    pub fn get_status(&self) -> (r: Status)
        ensures
            r == self.status,
    {
        self.status
    }
}

/// The diagnostic outcome of a terminal submission: counts reported by the
/// gateway and its ordered diagnostic messages.
#[derive(Debug, PartialEq, Eq, Hash)]
pub struct UploadResult {
    pub errors: usize,
    pub warnings: usize,
    pub skipped: usize,
    pub total: usize,
    pub result: Vec<String>,
}

impl UploadResult {
    pub fn new(errors: usize, warnings: usize, skipped: usize, total: usize, result: Vec<String>) -> (r: Self)
        ensures
            r.errors == errors,
            r.warnings == warnings,
            r.skipped == skipped,
            r.total == total,
            r.result == result,
    {
        Self { errors, warnings, skipped, total, result }
    }

    /// Two results carry the same data: equal counts and, message by
    /// message, equal text.
    pub open spec fn same_content(&self, other: &UploadResult) -> bool {
        &&& self.errors == other.errors
        &&& self.warnings == other.warnings
        &&& self.skipped == other.skipped
        &&& self.total == other.total
        &&& self.result@ == other.result@
    }

    pub fn errors(&self) -> (r: usize)
        ensures
            r == self.errors,
    {
        self.errors
    }

    pub fn warnings(&self) -> (r: usize)
        ensures
            r == self.warnings,
    {
        self.warnings
    }

    pub fn skipped(&self) -> (r: usize)
        ensures
            r == self.skipped,
    {
        self.skipped
    }

    pub fn total(&self) -> (r: usize)
        ensures
            r == self.total,
    {
        self.total
    }

    pub fn messages(&self) -> (r: &Vec<String>)
        ensures
            r == self.result,
    {
        &self.result
    }
}

impl Clone for UploadResult {
    /// A cloned result carries the same data as the original.
    fn clone(&self) -> (r: Self)
        ensures
            r.same_content(self),
    {
        let mut messages: Vec<String> = Vec::new();
        let mut i: usize = 0;
        while i < self.result.len()
            invariant
                i <= self.result.len(),
                messages@.len() == i as int,
                forall|j: int| 0 <= j < i ==> messages@[j] == self.result@[j],
            decreases self.result.len() - i,
        {
            messages.push(self.result[i].clone());
            i += 1;
        }
        proof {
            assert(messages@ =~= self.result@);
        }
        UploadResult {
            errors: self.errors,
            warnings: self.warnings,
            skipped: self.skipped,
            total: self.total,
            result: messages,
        }
    }
}

} // verus!
