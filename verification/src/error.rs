//! Errors, and the first of several.

use vstd::prelude::*;
use vstd::string::*;

use crate::instance::{ExternVal, ExternView};
use crate::link;
use crate::module::External;

verus! {

/// Why a request was refused.
#[derive(Debug)]
pub enum Error {
    /// The program breaks a rule that validation upholds.
    Validation(String),
    /// A module cannot be instantiated with what it was given.
    Initialization(Reason),
    /// The execution engine reported a failure of its own.
    Engine(String),
}

/// Why a module cannot be instantiated with what it was given.
#[derive(Debug)]
pub enum Reason {
    /// The reason in words.
    Message(String),
    /// The import at this position asks for something of another kind than what it was given.
    Kind { position: usize, expected: External },
}

/// Model of an [`Error`].
#[verifier::ext_equal]
pub enum ErrorView {
    Validation(Seq<char>),
    Initialization(ReasonView),
    Engine(Seq<char>),
}

impl View for Error {
    type V = ErrorView;

    open spec fn view(&self) -> ErrorView {
        match *self {
            Error::Validation(message) => ErrorView::Validation(message@),
            Error::Initialization(reason) => ErrorView::Initialization(reason@),
            Error::Engine(message) => ErrorView::Engine(message@),
        }
    }
}

impl Clone for Error {
    fn clone(&self) -> (copy: Error)
        ensures
            copy@ == self@,
    {
        match self {
            Error::Validation(message) => Error::Validation(message.clone()),
            Error::Initialization(reason) => Error::Initialization(reason.clone()),
            Error::Engine(message) => Error::Engine(message.clone()),
        }
    }
}

/// Model of a [`Reason`].
#[verifier::ext_equal]
pub enum ReasonView {
    Message(Seq<char>),
    Kind { position: int, expected: External },
}

impl View for Reason {
    type V = ReasonView;

    open spec fn view(&self) -> ReasonView {
        match *self {
            Reason::Message(message) => ReasonView::Message(message@),
            Reason::Kind { position, expected } => ReasonView::Kind {
                position: position as int,
                expected,
            },
        }
    }
}

impl ReasonView {
    /// The reason in words, where what was given to the import is written as `actual`.
    pub open spec fn message(self, actual: Seq<char>) -> Seq<char> {
        match self {
            ReasonView::Message(message) => message,
            ReasonView::Kind { expected, .. } => "Expected "@ + expected.text()
                + " type, but provided "@ + actual + " extern_val"@,
        }
    }
}

impl Clone for Reason {
    fn clone(&self) -> (copy: Reason)
        ensures
            copy@ == self@,
    {
        match self {
            Reason::Message(message) => Reason::Message(message.clone()),
            Reason::Kind { position, expected } => Reason::Kind {
                position: *position,
                expected: *expected,
            },
        }
    }
}

impl Reason {
    /// The reason in words, where what was given to the import is written as `actual`.
    pub fn message(&self, actual: &str) -> (message: String)
        ensures
            message@ == self@.message(actual@),
    {
        match self {
            Reason::Message(message) => message.clone(),
            Reason::Kind { expected, .. } => {
                let mut message: String = "Expected ".to_owned();
                expected.push_text(&mut message);
                message.append(" type, but provided ");
                message.append(actual);
                message.append(" extern_val");
                message
            },
        }
    }
}

/// The refusal of a module for a reason in words.
pub open spec fn in_words(message: Seq<char>) -> ErrorView {
    ErrorView::Initialization(ReasonView::Message(message))
}

impl ErrorView {
    /// Which of `vals` the error is about: the one that is not of the kind that its import asks
    /// for.
    pub open spec fn offered(self, vals: Seq<ExternView>) -> Option<ExternView> {
        match self {
            ErrorView::Initialization(ReasonView::Kind { position, .. }) => if 0 <= position
                < vals.len() {
                Some(vals[position])
            } else {
                None
            },
            _ => None,
        }
    }

    /// The error with its reason in words, where `vals` were offered for import and what the one
    /// that the error is about holds is written as `held`. An error that is about none of `vals`
    /// stays as it is.
    pub open spec fn in_words(self, vals: Seq<ExternView>, held: Seq<char>) -> ErrorView {
        match (self, self.offered(vals)) {
            (ErrorView::Initialization(reason), Some(val)) => in_words(
                reason.message(val.text(held)),
            ),
            _ => self,
        }
    }
}

impl Error {
    /// Which of `extern_vals` the error is about.
    pub fn offered<'a>(&self, extern_vals: &'a [ExternVal]) -> (val: Option<&'a ExternVal>)
        ensures
            match val {
                Some(v) => self@.offered(link::extern_views(extern_vals@)) == Some(v@),
                None => self@.offered(link::extern_views(extern_vals@)) is None,
            },
    {
        match self {
            Error::Initialization(Reason::Kind { position, .. }) => if *position
                < extern_vals.len() {
                Some(&extern_vals[*position])
            } else {
                None
            },
            _ => None,
        }
    }

    /// Puts the reason of the error into words, where `extern_vals` were offered for import and
    /// what the one that the error is about holds is written as `held`.
    pub fn in_words(self, extern_vals: &[ExternVal], held: &str) -> (e: Error)
        ensures
            e@ == self@.in_words(link::extern_views(extern_vals@), held@),
    {
        let text = match self.offered(extern_vals) {
            Some(val) => val.fmt(held),
            None => return self,
        };
        match self {
            Error::Initialization(reason) => Error::Initialization(
                Reason::Message(reason.message(text.as_str())),
            ),
            other => other,
        }
    }
}

/// The first refusal in a sequence of checks, if there is one.
pub open spec fn first_refusal(checks: Seq<Option<ErrorView>>) -> Option<ErrorView>
    decreases checks.len(),
{
    if checks.len() == 0 {
        None
    } else {
        match first_refusal(checks.drop_last()) {
            Some(e) => Some(e),
            None => checks.last(),
        }
    }
}

/// How many checks pass before the first refusal.
pub open spec fn passed(checks: Seq<Option<ErrorView>>) -> nat
    decreases checks.len(),
{
    if checks.len() == 0 {
        0
    } else if first_refusal(checks.drop_last()) is Some {
        passed(checks.drop_last())
    } else if checks.last() is Some {
        (checks.len() - 1) as nat
    } else {
        checks.len()
    }
}

/// A refusal is the first one where nothing before it is refused.
pub proof fn lemma_first_refusal_is_final(checks: Seq<Option<ErrorView>>, i: int)
    requires
        0 <= i < checks.len(),
        first_refusal(checks.take(i)) is None,
        checks[i] is Some,
    ensures
        first_refusal(checks) == checks[i],
        passed(checks) == i,
    decreases checks.len(),
{
    if i == checks.len() - 1 {
        assert(checks.drop_last() =~= checks.take(i));
    } else {
        assert(checks.drop_last().take(i) =~= checks.take(i));
        lemma_first_refusal_is_final(checks.drop_last(), i);
    }
}

/// Nothing is refused where every check passes, and only there.
pub proof fn lemma_no_refusal(checks: Seq<Option<ErrorView>>)
    ensures
        first_refusal(checks) is None <==> forall|i: int|
            0 <= i < checks.len() ==> #[trigger] checks[i] is None,
    decreases checks.len(),
{
    if checks.len() > 0 {
        let before = checks.drop_last();
        lemma_no_refusal(before);
        if first_refusal(checks) is None {
            assert forall|i: int| 0 <= i < checks.len() implies #[trigger] checks[i] is None by {
                if i < before.len() {
                    assert(before[i] is None);
                }
            }
        }
        if forall|i: int| 0 <= i < checks.len() ==> #[trigger] checks[i] is None {
            assert forall|i: int| 0 <= i < before.len() implies #[trigger] before[i] is None by {
                assert(checks[i] is None);
            }
            assert(checks[checks.len() - 1] is None);
        }
    }
}

} // verus!
