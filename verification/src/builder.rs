//! Step-by-step construction of a PUB command, with validation.

use vstd::prelude::*;
use bytes::Bytes;
use crate::command::{field_view, is_optional_field, PubCommand};
use crate::decoder::copy_of;
use crate::error::NatsError;
use crate::payload::{bytes_clone, contents};
use crate::random::{is_token, sample_alphanumeric};
use crate::text::is_field;

verus! {

/// Length of a generated reply subject.
pub const INBOX_LEN: usize = 16;

/// Collects the fields of a PUB command.
pub struct PubCommandBuilder {
    pub subject: Option<Vec<u8>>,
    pub reply_to: Option<Option<Vec<u8>>>,
    pub payload: Option<Bytes>,
}

/// Whether `s` may stand as one field of a header: not empty, no blank, no CR, no LF.
pub fn check_field(s: &[u8]) -> (r: bool)
    ensures
        r == is_field(s@),
{
    if s.len() == 0 {
        return false;
    }
    let mut i: usize = 0;
    while i < s.len()
        invariant
            i <= s.len(),
            forall|j: int| 0 <= j < i ==> crate::text::is_field_byte(#[trigger] s@[j]),
        decreases s.len() - i,
    {
        let b: u8 = s[i];
        if b == 32 || b == 9 || b == 13 || b == 10 {
            return false;
        }
        i += 1;
    }
    true
}

/// An alphanumeric token is a field.
pub proof fn lemma_token_is_field(s: Seq<u8>, n: nat)
    requires
        is_token(s, n),
        n > 0,
    ensures
        is_field(s),
{
    assert forall|i: int| 0 <= i < s.len() implies crate::text::is_field_byte(#[trigger] s[i]) by {
        assert(crate::random::is_alphanumeric(s[i]));
    }
}

impl PubCommandBuilder {
    /// What `validate` answers for these fields: the subject is looked at first.
    pub open spec fn validation(self) -> Result<(), NatsError> {
        if self.subject is Some && !is_field(self.subject->Some_0@) {
            Err(NatsError::InvalidSubject)
        } else if self.reply_to is Some && self.reply_to->Some_0 is Some && !is_field(
            self.reply_to->Some_0->Some_0@,
        ) {
            Err(NatsError::InvalidInbox)
        } else {
            Ok(())
        }
    }

    /// A builder with no field set.
    pub fn new() -> (r: Self)
        ensures
            r.subject is None,
            r.reply_to is None,
            r.payload is None,
    {
        PubCommandBuilder { subject: None, reply_to: None, payload: None }
    }

    /// Sets the subject and leaves the other fields as they are.
    pub fn subject(&mut self, subject: Vec<u8>) -> (r: &mut Self)
        ensures
            r.subject == Some(subject),
            r.reply_to == old(self).reply_to,
            r.payload == old(self).payload,
            *final(self) == *final(r),
    {
        self.subject = Some(subject);
        self
    }

    /// Sets the reply subject, or its absence, and leaves the other fields as they are.
    pub fn reply_to(&mut self, reply_to: Option<Vec<u8>>) -> (r: &mut Self)
        ensures
            r.reply_to == Some(reply_to),
            r.subject == old(self).subject,
            r.payload == old(self).payload,
            *final(self) == *final(r),
    {
        self.reply_to = Some(reply_to);
        self
    }

    /// Sets the payload and leaves the other fields as they are.
    pub fn payload(&mut self, payload: Bytes) -> (r: &mut Self)
        ensures
            r.payload == Some(payload),
            r.subject == old(self).subject,
            r.reply_to == old(self).reply_to,
            *final(self) == *final(r),
    {
        self.payload = Some(payload);
        self
    }

    /// A fresh reply subject: sixteen random ASCII letters and digits.
    pub fn generate_reply_to() -> (r: Vec<u8>)
        ensures
            is_token(r@, 16),
            is_field(r@),
    {
        let r = sample_alphanumeric(INBOX_LEN);
        proof {
            lemma_token_is_field(r@, 16);
        }
        r
    }

    /// Sets the reply subject to a fresh one and leaves the other fields as they are.
    pub fn auto_reply_to(&mut self) -> (r: &mut Self)
        ensures
            r.reply_to is Some && r.reply_to->Some_0 is Some,
            is_token(r.reply_to->Some_0->Some_0@, 16),
            r.subject == old(self).subject,
            r.payload == old(self).payload,
            *final(self) == *final(r),
    {
        let inbox = Self::generate_reply_to();
        self.reply_to = Some(Some(inbox));
        self
    }

    /// Checks the fields that are set: the subject and the reply subject must each be a
    /// field of a header.
    pub fn validate(&self) -> (r: Result<(), NatsError>)
        ensures
            r == self.validation(),
    {
        if let Some(subject) = &self.subject {
            if !check_field(subject.as_slice()) {
                return Err(NatsError::InvalidSubject);
            }
        }
        if let Some(Some(reply_to)) = &self.reply_to {
            if !check_field(reply_to.as_slice()) {
                return Err(NatsError::InvalidInbox);
            }
        }
        Ok(())
    }

    /// The command that the fields make. It fails as `validate` does; then, where the
    /// subject or the payload was never set, with `UninitializedField`. A reply subject
    /// that was never set is absent.
    pub fn build(&self) -> (r: Result<PubCommand, NatsError>)
        ensures
            match r {
                Ok(cmd) => {
                    &&& self.validation() is Ok
                    &&& self.subject is Some
                    &&& self.payload is Some
                    &&& cmd.subject@ == self.subject->Some_0@
                    &&& contents(cmd.payload) == contents(self.payload->Some_0)
                    &&& field_view(cmd.reply_to) == (match self.reply_to {
                        Some(inner) => field_view(inner),
                        None => None,
                    })
                    &&& is_field(cmd.subject@)
                    &&& is_optional_field(field_view(cmd.reply_to))
                },
                Err(e) => if self.validation() is Err {
                    e == self.validation()->Err_0
                } else {
                    e == NatsError::UninitializedField && (self.subject is None
                        || self.payload is None)
                },
            },
    {
        match self.validate() {
            Err(e) => {
                return Err(e);
            },
            Ok(_) => {},
        }
        let subject = match &self.subject {
            Some(s) => copy_of(s.as_slice()),
            None => {
                return Err(NatsError::UninitializedField);
            },
        };
        let payload = match &self.payload {
            Some(p) => bytes_clone(p),
            None => {
                return Err(NatsError::UninitializedField);
            },
        };
        let reply_to = match &self.reply_to {
            Some(Some(r)) => Some(copy_of(r.as_slice())),
            _ => None,
        };
        Ok(PubCommand { subject, reply_to, payload })
    }
}

} // verus!
