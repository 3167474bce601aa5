//! Reading a yes-or-no property of the power management root domain. Each step
//! asks the system for one thing; what was asked for is given back on every way
//! out.
use vstd::prelude::*;
use vstd::string::StringExecFns;

use crate::system::SystemError;

verus! {

/// The service whose properties are read.
pub const ROOT_DOMAIN: &'static str = "IOPMrootDomain";

/// The property that says whether the lid is closed.
pub const LID_PROPERTY: &'static str = "AppleClamshellState";

/// The property that says whether sleep is overridden.
pub const SLEEP_PROPERTY: &'static str = "SleepDisabled";

/// What is known when the service is given back.
#[derive(Clone, Copy, Debug, Eq, PartialEq, Structural)]
pub enum Finding {
    /// The key could not be made.
    NoKey,
    /// The service lacks the property.
    NoValue,
    /// The service has the property.
    Value,
}

/// The next thing to ask of the system.
#[derive(Debug, Eq, PartialEq)]
pub enum ProbeStep {
    /// Make a matcher for the service.
    CreateMatcher,
    /// Find the service; this uses the matcher up.
    FindService,
    /// Make the key of the property.
    CreateKey,
    /// Read the property.
    ReadProperty,
    /// Give the key back; the property was there or not.
    ReleaseKey(bool),
    /// Give the service back.
    ReleaseService(Finding),
    /// Read the truth of the value.
    ReadFlag,
    /// Give the value back; it was true or not.
    ReleaseValue(bool),
    /// The reading.
    Done(Result<bool, SystemError>),
}

/// What is held in a step and has to be given back.
pub struct Held {
    pub matcher: bool,
    pub service: bool,
    pub key: bool,
    pub value: bool,
}

/// What is held when a step is taken.
pub open spec fn held_in(step: ProbeStep) -> Held {
    match step {
        ProbeStep::CreateMatcher => Held { matcher: false, service: false, key: false, value: false },
        ProbeStep::FindService => Held { matcher: true, service: false, key: false, value: false },
        ProbeStep::CreateKey => Held { matcher: false, service: true, key: false, value: false },
        ProbeStep::ReadProperty => Held { matcher: false, service: true, key: true, value: false },
        ProbeStep::ReleaseKey(found) => Held { matcher: false, service: true, key: true, value: found },
        ProbeStep::ReleaseService(finding) => Held {
            matcher: false,
            service: true,
            key: false,
            value: finding == Finding::Value,
        },
        ProbeStep::ReadFlag => Held { matcher: false, service: false, key: false, value: true },
        ProbeStep::ReleaseValue(_) => Held { matcher: false, service: false, key: false, value: true },
        ProbeStep::Done(_) => Held { matcher: false, service: false, key: false, value: false },
    }
}

/// What a step does to what is held: a step that makes or finds something holds
/// it where the answer is yes, and a step that gives something back holds it no
/// more. Finding the service uses the matcher up either way.
pub open spec fn held_after(held: Held, step: ProbeStep, answer: bool) -> Held {
    match step {
        ProbeStep::CreateMatcher => Held { matcher: answer, ..held },
        ProbeStep::FindService => Held { matcher: false, service: answer, ..held },
        ProbeStep::CreateKey => Held { key: answer, ..held },
        ProbeStep::ReadProperty => Held { value: answer, ..held },
        ProbeStep::ReleaseKey(_) => Held { key: false, ..held },
        ProbeStep::ReleaseService(_) => Held { service: false, ..held },
        ProbeStep::ReadFlag => held,
        ProbeStep::ReleaseValue(_) => Held { value: false, ..held },
        ProbeStep::Done(_) => held,
    }
}

/// The message on a key that could not be made.
pub open spec fn no_key_text(property: Seq<char>) -> Seq<char> {
    "failed to create "@ + property + " key"@
}

/// The message on a property that is not there.
pub open spec fn no_value_text(property: Seq<char>) -> Seq<char> {
    property + " property not found"@
}

/// A reading failed with a message of the registry.
pub open spec fn failed(step: ProbeStep, message: Seq<char>) -> bool {
    step matches ProbeStep::Done(Err(SystemError::Iokit(said))) && said@ == message
}

/// The step that follows, by the answer to the last one.
pub open spec fn follows(step: ProbeStep, property: Seq<char>, answer: bool, next: ProbeStep) -> bool {
    match step {
        ProbeStep::CreateMatcher => if answer {
            next is FindService
        } else {
            failed(next, "failed to create IOPMrootDomain matcher"@)
        },
        ProbeStep::FindService => if answer {
            next is CreateKey
        } else {
            failed(next, "IOPMrootDomain not found"@)
        },
        ProbeStep::CreateKey => if answer {
            next is ReadProperty
        } else {
            next == ProbeStep::ReleaseService(Finding::NoKey)
        },
        ProbeStep::ReadProperty => next == ProbeStep::ReleaseKey(answer),
        ProbeStep::ReleaseKey(found) => next == ProbeStep::ReleaseService(
            if found {
                Finding::Value
            } else {
                Finding::NoValue
            },
        ),
        ProbeStep::ReleaseService(Finding::NoKey) => failed(next, no_key_text(property)),
        ProbeStep::ReleaseService(Finding::NoValue) => failed(next, no_value_text(property)),
        ProbeStep::ReleaseService(Finding::Value) => next is ReadFlag,
        ProbeStep::ReadFlag => next == ProbeStep::ReleaseValue(answer),
        ProbeStep::ReleaseValue(flag) => next == ProbeStep::Done(Ok(flag)),
        ProbeStep::Done(_) => next == step,
    }
}

/// The step that follows. The answer says whether what was made or looked for is
/// there, or whether the value is true; it does not matter where something was
/// given back.
pub fn read_root_domain_bool(step: ProbeStep, property: &str, answer: bool) -> (next: ProbeStep)
    ensures
        follows(step, property@, answer, next),
        held_in(next) == held_after(held_in(step), step, answer),
{
    match step {
        ProbeStep::CreateMatcher => {
            if answer {
                ProbeStep::FindService
            } else {
                ProbeStep::Done(Err(SystemError::Iokit("failed to create IOPMrootDomain matcher".to_owned())))
            }
        },
        ProbeStep::FindService => {
            if answer {
                ProbeStep::CreateKey
            } else {
                ProbeStep::Done(Err(SystemError::Iokit("IOPMrootDomain not found".to_owned())))
            }
        },
        ProbeStep::CreateKey => {
            if answer {
                ProbeStep::ReadProperty
            } else {
                ProbeStep::ReleaseService(Finding::NoKey)
            }
        },
        ProbeStep::ReadProperty => ProbeStep::ReleaseKey(answer),
        ProbeStep::ReleaseKey(found) => ProbeStep::ReleaseService(
            if found {
                Finding::Value
            } else {
                Finding::NoValue
            },
        ),
        ProbeStep::ReleaseService(Finding::NoKey) => {
            let mut message = "failed to create ".to_owned();
            message.append(property);
            message.append(" key");
            ProbeStep::Done(Err(SystemError::Iokit(message)))
        },
        ProbeStep::ReleaseService(Finding::NoValue) => {
            let mut message = property.to_owned();
            message.append(" property not found");
            ProbeStep::Done(Err(SystemError::Iokit(message)))
        },
        ProbeStep::ReleaseService(Finding::Value) => ProbeStep::ReadFlag,
        ProbeStep::ReadFlag => ProbeStep::ReleaseValue(answer),
        ProbeStep::ReleaseValue(flag) => ProbeStep::Done(Ok(flag)),
        ProbeStep::Done(reading) => ProbeStep::Done(reading),
    }
}

/// The steps of a reading follow one another, by some answers.
pub open spec fn is_reading(steps: Seq<ProbeStep>, property: Seq<char>, answers: Seq<bool>) -> bool {
    &&& steps.len() == answers.len() + 1
    &&& steps[0] is CreateMatcher
    &&& forall|i: int| 0 <= i < answers.len() ==> #[trigger] follows(steps[i], property, answers[i], steps[i + 1])
}

/// What is held after the first steps of a reading, counted from nothing.
pub open spec fn held_along(steps: Seq<ProbeStep>, answers: Seq<bool>, count: nat) -> Held
    decreases count,
{
    if count == 0 {
        Held { matcher: false, service: false, key: false, value: false }
    } else {
        held_after(held_along(steps, answers, (count - 1) as nat), steps[count - 1], answers[count - 1])
    }
}

proof fn lemma_held_along(steps: Seq<ProbeStep>, property: Seq<char>, answers: Seq<bool>, count: nat)
    requires
        is_reading(steps, property, answers),
        count <= answers.len(),
    ensures
        held_along(steps, answers, count) == held_in(steps[count as int]),
    decreases count,
{
    if count > 0 {
        lemma_held_along(steps, property, answers, (count - 1) as nat);
        assert(follows(steps[count - 1], property, answers[count - 1], steps[count - 1 + 1]));
    }
}

/// However the system answers, a reading that is done holds nothing.
pub proof fn readings_give_everything_back(steps: Seq<ProbeStep>, property: Seq<char>, answers: Seq<bool>)
    requires
        is_reading(steps, property, answers),
        steps.last() is Done,
    ensures
        held_along(steps, answers, answers.len()) == (Held {
            matcher: false,
            service: false,
            key: false,
            value: false,
        }),
{
    lemma_held_along(steps, property, answers, answers.len());
}

/// A reading is done after at most eight answers.
pub proof fn readings_end(steps: Seq<ProbeStep>, property: Seq<char>, answers: Seq<bool>)
    requires
        is_reading(steps, property, answers),
        answers.len() >= 8,
    ensures
        steps[8] is Done,
{
    assert(follows(steps[0], property, answers[0], steps[0int + 1]));
    assert(follows(steps[1], property, answers[1], steps[1int + 1]));
    assert(follows(steps[2], property, answers[2], steps[2int + 1]));
    assert(follows(steps[3], property, answers[3], steps[3int + 1]));
    assert(follows(steps[4], property, answers[4], steps[4int + 1]));
    assert(follows(steps[5], property, answers[5], steps[5int + 1]));
    assert(follows(steps[6], property, answers[6], steps[6int + 1]));
    assert(follows(steps[7], property, answers[7], steps[7int + 1]));
}

/// A reading that comes to something says what the value said; it had found the
/// service, the key and the property before.
pub proof fn readings_say_what_the_value_says(steps: Seq<ProbeStep>, property: Seq<char>, answers: Seq<bool>)
    requires
        is_reading(steps, property, answers),
        answers.len() == 8,
    ensures
        answers[0] && answers[1] && answers[2] && answers[3] ==> steps[8] == ProbeStep::Done(Ok(answers[6])),
        !answers[0] ==> failed(steps[8], "failed to create IOPMrootDomain matcher"@),
        answers[0] && !answers[1] ==> failed(steps[8], "IOPMrootDomain not found"@),
        answers[0] && answers[1] && !answers[2] ==> failed(steps[8], "failed to create "@ + property + " key"@),
        answers[0] && answers[1] && answers[2] && !answers[3] ==> failed(steps[8], property + " property not found"@),
{
    assert(follows(steps[0], property, answers[0], steps[0int + 1]));
    assert(follows(steps[1], property, answers[1], steps[1int + 1]));
    assert(follows(steps[2], property, answers[2], steps[2int + 1]));
    assert(follows(steps[3], property, answers[3], steps[3int + 1]));
    assert(follows(steps[4], property, answers[4], steps[4int + 1]));
    assert(follows(steps[5], property, answers[5], steps[5int + 1]));
    assert(follows(steps[6], property, answers[6], steps[6int + 1]));
    assert(follows(steps[7], property, answers[7], steps[7int + 1]));
}

} // verus!
