//! The session of the container runtime.

use crate::workflow::{always, Action, Message, Op, Phase, Step};
use crate::config::{config_value, spec_config_value, ConfigError};
use crate::paths::{join, join_path};
use crate::text::{has_subseq, str_contains, str_eq};
use vstd::prelude::*;
use vstd::string::StringExecFns;

verus! {

/// Why the container does not do what was asked.
#[derive(Clone, Copy, PartialEq, Eq, Debug, Structural)]
pub enum ContainerError {
    /// The container cannot be started without a session.
    NoSession,
    /// The data home of the user cannot be told.
    NoDataHome,
}

/// The container, as far as its last session tells.
#[derive(Debug)]
pub struct WaydroidContainer {
    /// The attributes of the session that was last seen, each a key and a
    /// value; none if there is no session. The session is a map. It is kept
    /// as a list of pairs in which no key occurs twice, of which everything
    /// that is said here can be proved.
    session: Vec<(String, String)>,
}

/// No key occurs twice.
pub open spec fn distinct_keys(attrs: Seq<(String, String)>) -> bool {
    forall|i: int, j: int|
        0 <= i < j < attrs.len() ==> (#[trigger] attrs[i]).0@ != (#[trigger] attrs[j]).0@
}

/// What the state of the session means.
#[derive(Clone, Copy, PartialEq, Eq, Debug, Structural)]
pub struct SessionCheck {
    /// The session, or the container, counts as running.
    pub running: bool,
    /// The session is frozen, and has to be unfrozen.
    pub unfreeze: bool,
}

/// The value of the attribute with this key: of the first one, where the
/// key occurs more than once.
pub open spec fn attr_of(attrs: Seq<(String, String)>, key: Seq<char>) -> Option<Seq<char>>
    decreases attrs.len(),
{
    if attrs.len() == 0 {
        None
    } else if attrs[0].0@ == key {
        Some(attrs[0].1@)
    } else {
        attr_of(attrs.subrange(1, attrs.len() as int), key)
    }
}

/// The data home of the user: below the home that `sudo` names, unless that
/// is root's; without such a home, what the session names.
pub open spec fn spec_get_data_home(sudo_home: Option<Seq<char>>, attrs: Seq<(String, String)>) -> Result<
    Seq<char>,
    ContainerError,
> {
    match sudo_home {
        Some(home) => if has_subseq(home, "root"@) {
            Err(ContainerError::NoDataHome)
        } else {
            Ok(join_path(home, ".local/share"@))
        },
        None => match attr_of(attrs, "xdg_data_home"@) {
            Some(value) => Ok(value),
            None => Err(ContainerError::NoDataHome),
        },
    }
}

/// Whether the overlay is the storage of the guest, going by the text of
/// the configuration: it is if `mount_overlays` is `True`.
pub fn has_overlay(config: &str) -> (r: Result<bool, ConfigError>)
    ensures
        r == (match spec_config_value(config@, "mount_overlays"@) {
            Ok(value) => Ok::<bool, ConfigError>(value == "True"@),
            Err(e) => Err::<bool, ConfigError>(e),
        }),
{
    match config_value(config, "mount_overlays") {
        Ok(value) => Ok(str_eq(value.as_str(), "True")),
        Err(e) => Err(e),
    }
}

proof fn lemma_attr_of_push(attrs: Seq<(String, String)>, pair: (String, String), key: Seq<char>)
    ensures
        attr_of(attrs.push(pair), key) == (match attr_of(attrs, key) {
            Some(value) => Some(value),
            None => if pair.0@ == key {
                Some(pair.1@)
            } else {
                None
            },
        }),
    decreases attrs.len(),
{
    let more = attrs.push(pair);
    if attrs.len() == 0 {
        assert(more.subrange(1, more.len() as int) =~= Seq::<(String, String)>::empty());
        assert(more[0] == pair);
    } else {
        assert(more[0] == attrs[0]);
        let rest = attrs.subrange(1, attrs.len() as int);
        assert(more.subrange(1, more.len() as int) =~= rest.push(pair));
        lemma_attr_of_push(rest, pair, key);
    }
}

proof fn lemma_no_attr_no_key(attrs: Seq<(String, String)>, key: Seq<char>)
    requires
        attr_of(attrs, key) is None,
    ensures
        forall|i: int| 0 <= i < attrs.len() ==> (#[trigger] attrs[i]).0@ != key,
    decreases attrs.len(),
{
    if attrs.len() > 0 {
        let rest = attrs.subrange(1, attrs.len() as int);
        lemma_no_attr_no_key(rest, key);
        assert forall|i: int| 0 <= i < attrs.len() implies (#[trigger] attrs[i]).0@ != key by {
            if i > 0 {
                assert(attrs[i] == rest[i - 1]);
            }
        }
    }
}

fn lookup(attrs: &Vec<(String, String)>, key: &str) -> (value: Option<String>)
    ensures
        match value {
            Some(v) => attr_of(attrs@, key@) == Some(v@),
            None => attr_of(attrs@, key@) is None,
        },
{
    let mut i: usize = 0;
    assert(attrs@.subrange(0, attrs@.len() as int) =~= attrs@);
    while i < attrs.len()
        invariant
            i <= attrs@.len(),
            attr_of(attrs@, key@) == attr_of(attrs@.subrange(i as int, attrs@.len() as int), key@),
        decreases attrs@.len() - i,
    {
        let ghost rest = attrs@.subrange(i as int, attrs@.len() as int);
        proof {
            assert(rest[0] == attrs@[i as int]);
            assert(rest.subrange(1, rest.len() as int) =~= attrs@.subrange(
                i + 1,
                attrs@.len() as int,
            ));
        }
        if str_eq(attrs[i].0.as_str(), key) {
            return Some(String::from_str(attrs[i].1.as_str()));
        }
        i += 1;
    }
    None
}

impl WaydroidContainer {
    /// The attributes of the session, each a key and a value.
    pub closed spec fn attrs(&self) -> Seq<(String, String)> {
        self.session@
    }

    /// The session is a map: no key occurs twice.
    #[verifier::type_invariant]
    pub closed spec fn well_formed(&self) -> bool {
        distinct_keys(self.session@)
    }

    /// The container with the session that was last seen. Of two attributes
    /// with one key the first is kept, so that every key has the value that
    /// it had, and none occurs twice.
    pub fn new(session: Vec<(String, String)>) -> (container: WaydroidContainer)
        ensures
            distinct_keys(container.attrs()),
            forall|key: Seq<char>|
                #[trigger] attr_of(container.attrs(), key) == attr_of(session@, key),
            (container.attrs().len() > 0) == (session@.len() > 0),
    {
        let mut kept: Vec<(String, String)> = Vec::new();
        let mut i: usize = 0;
        assert(session@.subrange(0, 0) =~= Seq::<(String, String)>::empty());
        while i < session.len()
            invariant
                i <= session@.len(),
                distinct_keys(kept@),
                forall|key: Seq<char>|
                    #[trigger] attr_of(kept@, key) == attr_of(session@.subrange(0, i as int), key),
                (kept@.len() > 0) == (i > 0),
            decreases session@.len() - i,
        {
            let ghost before = session@.subrange(0, i as int);
            let ghost after = session@.subrange(0, i + 1);
            let ghost old_kept = kept@;
            let found = lookup(&kept, session[i].0.as_str());
            proof {
                assert(after =~= before.push(session@[i as int]));
                assert forall|key: Seq<char>| #[trigger]
                    attr_of(after, key) == (match attr_of(before, key) {
                        Some(value) => Some(value),
                        None => if session@[i as int].0@ == key {
                            Some(session@[i as int].1@)
                        } else {
                            None
                        },
                    }) by {
                    lemma_attr_of_push(before, session@[i as int], key);
                }
            }
            if found.is_none() {
                let pair = (
                    String::from_str(session[i].0.as_str()),
                    String::from_str(session[i].1.as_str()),
                );
                proof {
                    lemma_no_attr_no_key(old_kept, pair.0@);
                    assert forall|key: Seq<char>| #[trigger]
                        attr_of(old_kept.push(pair), key) == attr_of(after, key) by {
                        lemma_attr_of_push(old_kept, pair, key);
                    }
                }
                kept.push(pair);
            } else {
                proof {
                    assert(i > 0) by {
                        if i == 0 {
                            assert(attr_of(old_kept, session@[i as int].0@) is None);
                        }
                    }
                }
            }
            i += 1;
        }
        assert(session@.subrange(0, session@.len() as int) =~= session@);
        WaydroidContainer { session: kept }
    }

    /// The attributes of the session.
    pub fn get_session(&self) -> (session: &Vec<(String, String)>)
        ensures
            session@ == self.attrs(),
            distinct_keys(session@),
    {
        proof {
            use_type_invariant(self);
        }
        &self.session
    }

    fn state_is(&self, value: &str) -> (r: bool)
        ensures
            r == (attr_of(self.attrs(), "state"@) == Some(value@)),
    {
        match lookup(&self.session, "state") {
            Some(state) => str_eq(state.as_str(), value),
            None => false,
        }
    }

    /// Whether a session runs: one does if the session has attributes. A
    /// frozen session has to be unfrozen.
    pub fn is_session_running(&self) -> (check: SessionCheck)
        ensures
            check.running == (self.attrs().len() > 0),
            check.unfreeze == (attr_of(self.attrs(), "state"@) == Some("FROZEN"@)),
    {
        let running = self.session.len() > 0;
        let unfreeze = self.state_is("FROZEN");
        SessionCheck { running, unfreeze }
    }

    /// Whether the container runs: it does if the state of the session is
    /// `RUNNING`, or `FROZEN`, in which case it has to be unfrozen.
    pub fn is_container_running(&self) -> (check: SessionCheck)
        ensures
            check.running == (attr_of(self.attrs(), "state"@) == Some("FROZEN"@) || attr_of(
                self.attrs(),
                "state"@,
            ) == Some("RUNNING"@)),
            check.unfreeze == (attr_of(self.attrs(), "state"@) == Some("FROZEN"@)),
    {
        let frozen = self.state_is("FROZEN");
        let running = self.state_is("RUNNING");
        SessionCheck { running: frozen || running, unfreeze: frozen }
    }

    /// What stops the container: with the session, or without.
    pub fn stop(session_stop: bool) -> (action: Action)
        ensures
            action == (if session_stop {
                Action::StopSession
            } else {
                Action::StopContainer
            }),
    {
        if session_stop {
            Action::StopSession
        } else {
            Action::StopContainer
        }
    }

    /// Whether the container may be started: only with a session.
    pub fn start(&self) -> (r: Result<Action, ContainerError>)
        ensures
            r == (if self.attrs().len() > 0 {
                Ok::<Action, ContainerError>(Action::StartSession)
            } else {
                Err::<Action, ContainerError>(ContainerError::NoSession)
            }),
    {
        if self.session.len() > 0 {
            Ok(Action::StartSession)
        } else {
            Err(ContainerError::NoSession)
        }
    }

    /// The steps that restart the container after a countdown of five
    /// seconds.
    pub fn restart_countdown() -> (plan: Vec<Step>)
        ensures
            plan@ == spec_restart_steps(Phase::Finalizing),
    {
        restart_steps(Phase::Finalizing)
    }

    /// The value of the attribute of the session with this key.
    pub fn attr(&self, key: &str) -> (value: Option<String>)
        ensures
            match value {
                Some(v) => attr_of(self.attrs(), key@) == Some(v@),
                None => attr_of(self.attrs(), key@) is None,
            },
    {
        lookup(&self.session, key)
    }

    /// The data home of the user who started the session.
    pub fn get_data_home(&self, sudo_home: Option<&str>) -> (r: Result<String, ContainerError>)
        ensures
            match r {
                Ok(path) => spec_get_data_home(
                    match sudo_home {
                        Some(home) => Some(home@),
                        None => None,
                    },
                    self.attrs(),
                ) == Ok::<Seq<char>, ContainerError>(path@),
                Err(e) => spec_get_data_home(
                    match sudo_home {
                        Some(home) => Some(home@),
                        None => None,
                    },
                    self.attrs(),
                ) == Err::<Seq<char>, ContainerError>(e),
            },
    {
        match sudo_home {
            Some(home) => {
                if str_contains(home, "root") {
                    Err(ContainerError::NoDataHome)
                } else {
                    Ok(join(home, ".local/share"))
                }
            },
            None => match self.attr("xdg_data_home") {
                Some(value) => Ok(value),
                None => Err(ContainerError::NoDataHome),
            },
        }
    }
}

/// The steps that [`restart_steps`] returns.
pub open spec fn spec_restart_steps(phase: Phase) -> Seq<Step> {
    seq![
        always(phase, Op::Say(Message::RestartIn(5))),
        always(phase, Op::Wait(1)),
        always(phase, Op::Say(Message::RestartIn(4))),
        always(phase, Op::Wait(1)),
        always(phase, Op::Say(Message::RestartIn(3))),
        always(phase, Op::Wait(1)),
        always(phase, Op::Say(Message::RestartIn(2))),
        always(phase, Op::Wait(1)),
        always(phase, Op::Say(Message::RestartIn(1))),
        always(phase, Op::Do(Action::StopContainer)),
        always(phase, Op::Do(Action::StartSession)),
        always(phase, Op::Wait(1)),
    ]
}

/// The steps that restart the container after a countdown of five seconds:
/// the container is stopped and started at the last tick.
pub fn restart_steps(phase: Phase) -> (plan: Vec<Step>)
    ensures
        plan@ == spec_restart_steps(phase),
{
    let mut plan: Vec<Step> = Vec::new();
    plan.push(always(phase, Op::Say(Message::RestartIn(5))));
    plan.push(always(phase, Op::Wait(1)));
    plan.push(always(phase, Op::Say(Message::RestartIn(4))));
    plan.push(always(phase, Op::Wait(1)));
    plan.push(always(phase, Op::Say(Message::RestartIn(3))));
    plan.push(always(phase, Op::Wait(1)));
    plan.push(always(phase, Op::Say(Message::RestartIn(2))));
    plan.push(always(phase, Op::Wait(1)));
    plan.push(always(phase, Op::Say(Message::RestartIn(1))));
    plan.push(always(phase, Op::Do(Action::StopContainer)));
    plan.push(always(phase, Op::Do(Action::StartSession)));
    plan.push(always(phase, Op::Wait(1)));
    assert(plan@ =~= spec_restart_steps(phase));
    plan
}

} // verus!
