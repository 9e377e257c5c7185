//! Validation findings and the reports that aggregate them.

use vstd::prelude::*;

verus! {

/// Severity of a validation message.
#[derive(Debug, Clone, Copy, PartialEq, Eq, Structural)]
pub enum ValidationLevel {
    Error,
    Warning,
    Info,
}

/// A single validation finding.
#[derive(Debug, Clone)]
pub struct ValidationMessage {
    pub level: ValidationLevel,
    pub code: String,
    pub message: String,
    pub target_id: Option<String>,
}

/// Aggregated validation output from schema, geometry, or constraint checks.
#[derive(Debug, Clone)]
pub struct ValidationReport {
    pub messages: Vec<ValidationMessage>,
}

/// The abstract content of a validation message.
pub struct MessageView {
    pub level: ValidationLevel,
    pub code: Seq<char>,
    pub message: Seq<char>,
    pub target_id: Option<Seq<char>>,
}

impl View for ValidationMessage {
    type V = MessageView;

    open spec fn view(&self) -> MessageView {
        MessageView {
            level: self.level,
            code: self.code@,
            message: self.message@,
            target_id: match self.target_id {
                Some(t) => Some(t@),
                None => None,
            },
        }
    }
}

impl View for ValidationReport {
    type V = Seq<MessageView>;

    open spec fn view(&self) -> Seq<MessageView> {
        self.messages@.map_values(|m: ValidationMessage| m@)
    }
}

/// Number of error-level messages in a sequence of findings.
pub open spec fn count_errors(messages: Seq<MessageView>) -> nat
    decreases messages.len(),
{
    if messages.len() == 0 {
        0
    } else {
        count_errors(messages.drop_last()) + if messages.last().level == ValidationLevel::Error {
            1nat
        } else {
            0nat
        }
    }
}

/// Whether some finding in the sequence is an error.
pub open spec fn has_error(messages: Seq<MessageView>) -> bool {
    exists|i: int| 0 <= i < messages.len() && #[trigger] messages[i].level == ValidationLevel::Error
}

/// A report has an error exactly when it counts at least one error.
pub proof fn lemma_count_errors_positive(messages: Seq<MessageView>)
    ensures
        (count_errors(messages) > 0) == has_error(messages),
    decreases messages.len(),
{
    if messages.len() > 0 {
        let init = messages.drop_last();
        lemma_count_errors_positive(init);
        if has_error(init) {
            let i = choose|i: int| 0 <= i < init.len() && #[trigger] init[i].level == ValidationLevel::Error;
            assert(messages[i] == init[i]);
        }
        if has_error(messages) {
            let i = choose|i: int| 0 <= i < messages.len() && #[trigger] messages[i].level == ValidationLevel::Error;
            if i < init.len() {
                assert(init[i] == messages[i]);
            }
        }
    } else {
        assert(!has_error(messages));
    }
}

/// Counting errors over a concatenation adds the counts of the parts.
pub proof fn lemma_count_errors_append(a: Seq<MessageView>, b: Seq<MessageView>)
    ensures
        count_errors(a + b) == count_errors(a) + count_errors(b),
    decreases b.len(),
{
    if b.len() == 0 {
        assert(a + b =~= a);
    } else {
        lemma_count_errors_append(a, b.drop_last());
        assert((a + b).drop_last() =~= a + b.drop_last());
        assert((a + b).last() == b.last());
    }
}

impl ValidationMessage {
    /// An error-level finding.
    pub fn error(code: &str, message: &str) -> (m: Self)
        ensures
            m@ == (MessageView {
                level: ValidationLevel::Error,
                code: code@,
                message: message@,
                target_id: None,
            }),
    {
        ValidationMessage {
            level: ValidationLevel::Error,
            code: code.to_owned(),
            message: message.to_owned(),
            target_id: None,
        }
    }

    /// A warning-level finding.
    pub fn warning(code: &str, message: &str) -> (m: Self)
        ensures
            m@ == (MessageView {
                level: ValidationLevel::Warning,
                code: code@,
                message: message@,
                target_id: None,
            }),
    {
        ValidationMessage {
            level: ValidationLevel::Warning,
            code: code.to_owned(),
            message: message.to_owned(),
            target_id: None,
        }
    }

    /// An informational finding.
    pub fn info(code: &str, message: &str) -> (m: Self)
        ensures
            m@ == (MessageView {
                level: ValidationLevel::Info,
                code: code@,
                message: message@,
                target_id: None,
            }),
    {
        ValidationMessage {
            level: ValidationLevel::Info,
            code: code.to_owned(),
            message: message.to_owned(),
            target_id: None,
        }
    }

    /// The same finding, attached to the element `target_id`.
    pub fn with_target(self, target_id: &str) -> (m: Self)
        ensures
            m@ == (MessageView { target_id: Some(target_id@), ..self@ }),
    {
        let mut m = self;
        m.target_id = Some(target_id.to_owned());
        m
    }
}

impl ValidationReport {
    /// An empty report.
    pub fn new() -> (r: Self)
        ensures
            r@ == Seq::<MessageView>::empty(),
    {
        let r = ValidationReport { messages: Vec::new() };
        assert(r@ =~= Seq::<MessageView>::empty());
        r
    }

    /// Append one finding.
    pub fn push(&mut self, message: ValidationMessage)
        ensures
            final(self)@ == old(self)@.push(message@),
    {
        self.messages.push(message);
        assert(self@ =~= old(self)@.push(message@));
    }

    /// Append every finding of `other`, in order.
    pub fn merge(&mut self, other: ValidationReport)
        ensures
            final(self)@ == old(self)@ + other@,
    {
        let ghost added = other@;
        let mut other = other;
        self.messages.append(&mut other.messages);
        assert(self@ =~= old(self)@ + added);
    }

    /// Whether any finding is an error.
    pub fn has_errors(&self) -> (b: bool)
        ensures
            b == has_error(self@),
    {
        let n = self.messages.len();
        let mut i: usize = 0;
        while i < n
            invariant
                n == self.messages@.len(),
                i <= n,
                forall|j: int| 0 <= j < i ==> (#[trigger] self@[j]).level != ValidationLevel::Error,
            decreases n - i,
        {
            if self.messages[i].level == ValidationLevel::Error {
                assert(self@[i as int].level == ValidationLevel::Error);
                return true;
            }
            i = i + 1;
        }
        false
    }

    /// Whether the report is free of errors.
    pub fn is_ok(&self) -> (b: bool)
        ensures
            b == !has_error(self@),
    {
        !self.has_errors()
    }

    /// Number of error-level findings.
    pub fn error_count(&self) -> (c: usize)
        ensures
            c == count_errors(self@),
    {
        let n = self.messages.len();
        let mut i: usize = 0;
        let mut count: usize = 0;
        while i < n
            invariant
                n == self.messages@.len(),
                i <= n,
                count == count_errors(self@.subrange(0, i as int)),
                count <= i,
            decreases n - i,
        {
            assert(self@.subrange(0, i + 1).drop_last() =~= self@.subrange(0, i as int));
            if self.messages[i].level == ValidationLevel::Error {
                count = count + 1;
            }
            i = i + 1;
        }
        assert(self@.subrange(0, n as int) =~= self@);
        count
    }
}

} // verus!
