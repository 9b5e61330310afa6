//! The Forge creations a browser knows, by id: allocating ids, loading the
//! creations found on disk, and the requests that name a creation
//! (revise, delete, build, auto-fix, snapshot), each refused for an
//! unknown id or a creation in the wrong phase.

use vstd::prelude::*;
use std::collections::HashMap;
use crate::forge::{
    can_build, is_busy, make_slug, next_id_after, next_revision, phase_allows_build,
    phase_is_busy, revision_prompt_spec, same_identity, slug_spec, ForgePhase, ForgeSnapshot,
    Session,
};
use crate::text::{append_chars, append_str, string_of, u64_to_dec, dec};

verus! {

broadcast use vstd::std_specs::hash::group_hash_axioms;

/// Why a request naming a creation is refused.
#[derive(Clone, Copy, Debug, PartialEq, Eq, Structural)]
pub enum ForgeRefusal {
    /// No creation has this id.
    Unknown(u64),
    /// The creation is streaming or building.
    Busy(u64, ForgePhase),
    /// The creation is not in a phase that allows a build.
    NotReady(u64, ForgePhase),
}

/// The name a phase prints under (`{:?}`).
pub open spec fn phase_debug_name(p: ForgePhase) -> Seq<char> {
    match p {
        ForgePhase::Idle => "Idle"@,
        ForgePhase::Streaming => "Streaming"@,
        ForgePhase::StreamComplete => "StreamComplete"@,
        ForgePhase::Building => "Building"@,
        ForgePhase::BuildOk => "BuildOk"@,
        ForgePhase::Error => "Error"@,
    }
}

fn phase_debug_str(p: ForgePhase) -> (r: &'static str)
    ensures
        r@ == phase_debug_name(p),
{
    match p {
        ForgePhase::Idle => "Idle",
        ForgePhase::Streaming => "Streaming",
        ForgePhase::StreamComplete => "StreamComplete",
        ForgePhase::Building => "Building",
        ForgePhase::BuildOk => "BuildOk",
        ForgePhase::Error => "Error",
    }
}

impl ForgeRefusal {
    /// The error message shown for the refusal.
    pub fn message(&self) -> (r: String)
        ensures
            r@ == match *self {
                ForgeRefusal::Unknown(id) => "unknown forge session "@ + dec(id as nat),
                ForgeRefusal::Busy(id, p) => "session "@ + dec(id as nat) + " is busy (phase="@
                    + phase_debug_name(p) + ")"@,
                ForgeRefusal::NotReady(id, p) => "session "@ + dec(id as nat)
                    + " is not ready to build (phase="@ + phase_debug_name(p) + ")"@,
            },
    {
        let mut out: Vec<char> = Vec::new();
        match *self {
            ForgeRefusal::Unknown(id) => {
                append_str(&mut out, "unknown forge session ");
                let d = u64_to_dec(id);
                append_chars(&mut out, d.as_slice());
            },
            ForgeRefusal::Busy(id, p) => {
                append_str(&mut out, "session ");
                let d = u64_to_dec(id);
                append_chars(&mut out, d.as_slice());
                append_str(&mut out, " is busy (phase=");
                append_str(&mut out, phase_debug_str(p));
                append_str(&mut out, ")");
            },
            ForgeRefusal::NotReady(id, p) => {
                append_str(&mut out, "session ");
                let d = u64_to_dec(id);
                append_chars(&mut out, d.as_slice());
                append_str(&mut out, " is not ready to build (phase=");
                append_str(&mut out, phase_debug_str(p));
                append_str(&mut out, ")");
            },
        }
        string_of(out.as_slice())
    }
}

/// The session of a creation just started with `prompt`: nothing
/// generated yet, auto-fix on, no retries used, changed at `now_ms`.
pub fn new_session(
    id: u64,
    slug: String,
    prompt: String,
    project_dir: std::path::PathBuf,
    now_ms: u64,
) -> (s: Session)
    ensures
        s.id == id,
        s.slug == slug,
        s.prompt == prompt,
        s.code@.len() == 0,
        s.phase == ForgePhase::Idle,
        s.build_log@.len() == 0,
        s.artifact_path is None,
        s.error is None,
        s.revision == 0,
        s.project_dir == project_dir,
        s.retries_used == 0,
        s.auto_fix,
        s.updated_at_ms == now_ms,
{
    Session {
        id,
        slug,
        prompt,
        code: String::new(),
        phase: ForgePhase::Idle,
        build_log: String::new(),
        artifact_path: None,
        error: None,
        revision: 0,
        project_dir,
        retries_used: 0,
        auto_fix: true,
        updated_at_ms: now_ms,
    }
}

/// The creations after `ss` were added in order, each under its id (a
/// later one wins over an earlier one with the same id).
pub open spec fn added(m: Map<u64, Session>, ss: Seq<Session>) -> Map<u64, Session>
    decreases ss.len(),
{
    if ss.len() == 0 {
        m
    } else {
        added(m, ss.drop_last()).insert(ss.last().id, ss.last())
    }
}

/// Every creation by id, and the id the next new one gets.
pub struct ForgeRegistry {
    sessions: HashMap<u64, Session>,
    next_id: u64,
}

impl ForgeRegistry {
    pub closed spec fn sessions(&self) -> Map<u64, Session> {
        self.sessions@
    }

    pub closed spec fn next_id(&self) -> u64 {
        self.next_id
    }

    /// No creations; the first new one gets id 1.
    pub fn new() -> (r: Self)
        ensures
            r.sessions() == Map::<u64, Session>::empty(),
            r.next_id() == 1,
    {
        ForgeRegistry { sessions: HashMap::new(), next_id: 1 }
    }

    /// The creations loaded from disk, each under its id; the next new one
    /// gets one past the largest id (1 when there are none).
    pub fn from_loaded(loaded: Vec<Session>) -> (r: Self)
        requires
            forall|i: int| 0 <= i < loaded@.len() ==> loaded@[i].id < u64::MAX,
        ensures
            r.sessions() == added(Map::<u64, Session>::empty(), loaded@),
            forall|i: int| 0 <= i < loaded@.len() ==> loaded@[i].id < r.next_id(),
            loaded@.len() == 0 ==> r.next_id() == 1,
            loaded@.len() > 0 ==> exists|i: int|
                0 <= i < loaded@.len() && loaded@[i].id + 1 == r.next_id(),
    {
        let ghost all = loaded@;
        let mut ids: Vec<u64> = Vec::new();
        let mut sessions: HashMap<u64, Session> = HashMap::new();
        let mut rest = loaded;
        let mut i: usize = 0;
        let n = rest.len();
        proof {
            assert(all.take(0) =~= Seq::<Session>::empty());
        }
        while rest.len() > 0
            invariant
                i + rest@.len() == n,
                n == all.len(),
                rest@ == all.skip(i as int),
                ids@.len() == i,
                forall|k: int| 0 <= k < i ==> ids@[k] == all[k].id,
                sessions@ == added(Map::<u64, Session>::empty(), all.take(i as int)),
            decreases rest@.len(),
        {
            let ghost rv = rest@;
            let s = rest.remove(0);
            proof {
                assert(rest@ =~= all.skip(i + 1));
                assert(all[i as int] == s);
                assert(all.take(i + 1).drop_last() =~= all.take(i as int));
            }
            ids.push(s.id);
            sessions.insert(s.id, s);
            i = i + 1;
        }
        proof {
            assert(all.take(i as int) =~= all);
        }
        let next = match next_id_after(ids.as_slice()) {
            Some(x) => x,
            None => {
                proof {
                    let k = choose|k: int| 0 <= k < ids@.len() && ids@[k] == u64::MAX;
                    assert(all[k].id < u64::MAX);
                }
                1
            },
        };
        proof {
            assert forall|k: int| 0 <= k < all.len() implies all[k].id < next by {
                assert(ids@[k] == all[k].id);
            }
            if all.len() > 0 {
                let k = choose|k: int| 0 <= k < ids@.len() && ids@[k] + 1 == next;
                assert(all[k].id + 1 == next);
            }
        }
        ForgeRegistry { sessions, next_id: next }
    }

    /// Takes the id for a new creation; the counter moves on (wrapping).
    pub fn allocate_id(&mut self) -> (id: u64)
        ensures
            id == old(self).next_id(),
            final(self).next_id() == (if id == u64::MAX {
                0
            } else {
                (id + 1) as u64
            }),
            final(self).sessions() == old(self).sessions(),
    {
        let id = self.next_id;
        self.next_id = if id == u64::MAX {
            0
        } else {
            id + 1
        };
        id
    }

    /// A new creation is started: it takes the next id and a slug made from
    /// that id and the current time. The caller scaffolds its project under
    /// the slug and then adds the session ([`new_session`], [`Self::insert`]).
    pub fn allocate_creation(&mut self) -> (r: (u64, String))
        ensures
            r.0 == old(self).next_id(),
            exists|secs: u64| r.1@ == slug_spec(secs, r.0),
            final(self).next_id() == (if r.0 == u64::MAX {
                0
            } else {
                (r.0 + 1) as u64
            }),
            final(self).sessions() == old(self).sessions(),
    {
        let id = self.allocate_id();
        let slug = make_slug(id);
        proof {
            let secs = choose|secs: u64| slug@ == slug_spec(secs, id);
            assert(slug@ == slug_spec(secs, id));
        }
        (id, slug)
    }

    /// A new creation joins under its id.
    pub fn insert(&mut self, s: Session)
        ensures
            final(self).sessions() == old(self).sessions().insert(s.id, s),
            final(self).next_id() == old(self).next_id(),
    {
        self.sessions.insert(s.id, s);
    }

    /// The state of creation `id`, if known.
    pub fn snapshot(&self, id: u64) -> (r: Option<ForgeSnapshot>)
        ensures
            match r {
                Some(snap) => self.sessions().contains_key(id) && snap.id == self.sessions()[id].id
                    && snap.phase == self.sessions()[id].phase && snap.prompt
                    == self.sessions()[id].prompt && snap.code == self.sessions()[id].code
                    && snap.revision == self.sessions()[id].revision,
                None => !self.sessions().contains_key(id),
            },
    {
        match self.sessions.get(&id) {
            Some(s) => Some(s.snapshot()),
            None => None,
        }
    }

    /// Re-prompts creation `id` with `prompt`: refused for an unknown id
    /// and while it streams or builds; otherwise the creation records the
    /// prompt (see `Session::prepare_revision`) and the prompt asking to
    /// edit its code is returned.
    pub fn revise(&mut self, id: u64, prompt: String) -> (r: Result<String, ForgeRefusal>)
        ensures
            final(self).next_id() == old(self).next_id(),
            !old(self).sessions().contains_key(id) ==> r == Err::<String, ForgeRefusal>(
                ForgeRefusal::Unknown(id),
            ) && final(self).sessions() == old(self).sessions(),
            old(self).sessions().contains_key(id) && phase_is_busy(old(self).sessions()[id].phase)
                ==> r == Err::<String, ForgeRefusal>(
                ForgeRefusal::Busy(id, old(self).sessions()[id].phase),
            ) && final(self).sessions() == old(self).sessions(),
            old(self).sessions().contains_key(id) && !phase_is_busy(old(self).sessions()[id].phase)
                ==> {
                let s = old(self).sessions()[id];
                &&& r matches Ok(p) && p@ == revision_prompt_spec(prompt@, s.code@)
                &&& final(self).sessions().dom() == old(self).sessions().dom()
                &&& forall|k: u64| k != id && #[trigger] old(self).sessions().contains_key(k)
                    ==> final(self).sessions()[k] == old(self).sessions()[k]
                &&& same_identity(final(self).sessions()[id], s)
                &&& final(self).sessions()[id].prompt == prompt
                &&& final(self).sessions()[id].phase == s.phase
                &&& final(self).sessions()[id].code == s.code
                &&& final(self).sessions()[id].retries_used == 0
                &&& final(self).sessions()[id].artifact_path is None
                &&& final(self).sessions()[id].revision == next_revision(s.revision)
            },
    {
        let ghost before = self.sessions@;
        let mut s = match self.sessions.remove(&id) {
            Some(s) => s,
            None => return Err(ForgeRefusal::Unknown(id)),
        };
        let phase = s.phase;
        match s.prepare_revision(prompt) {
            Some(text) => {
                self.sessions.insert(id, s);
                proof {
                    assert(self.sessions@.dom() =~= before.dom());
                }
                Ok(text)
            },
            None => {
                self.sessions.insert(id, s);
                proof {
                    assert(self.sessions@ =~= before);
                }
                Err(ForgeRefusal::Busy(id, phase))
            },
        }
    }

    /// Forgets creation `id` and returns its project directory, which the
    /// caller deletes: refused for an unknown id and while it streams or
    /// builds.
    pub fn delete(&mut self, id: u64) -> (r: Result<std::path::PathBuf, ForgeRefusal>)
        ensures
            final(self).next_id() == old(self).next_id(),
            !old(self).sessions().contains_key(id) ==> r == Err::<std::path::PathBuf, ForgeRefusal>(
                ForgeRefusal::Unknown(id),
            ) && final(self).sessions() == old(self).sessions(),
            old(self).sessions().contains_key(id) && phase_is_busy(old(self).sessions()[id].phase)
                ==> r == Err::<std::path::PathBuf, ForgeRefusal>(
                ForgeRefusal::Busy(id, old(self).sessions()[id].phase),
            ) && final(self).sessions() == old(self).sessions(),
            old(self).sessions().contains_key(id) && !phase_is_busy(old(self).sessions()[id].phase)
                ==> r == Ok::<std::path::PathBuf, ForgeRefusal>(old(self).sessions()[id].project_dir)
                && final(self).sessions() == old(self).sessions().remove(id),
    {
        let ghost before = self.sessions@;
        let s = match self.sessions.remove(&id) {
            Some(s) => s,
            None => return Err(ForgeRefusal::Unknown(id)),
        };
        if is_busy(s.phase) {
            let phase = s.phase;
            self.sessions.insert(id, s);
            proof {
                assert(self.sessions@ =~= before);
            }
            return Err(ForgeRefusal::Busy(id, phase));
        }
        Ok(s.project_dir)
    }

    /// Whether creation `id` may be built now: refused for an unknown id
    /// and unless streaming completed, a build failed or one succeeded.
    pub fn check_buildable(&self, id: u64) -> (r: Result<(), ForgeRefusal>)
        ensures
            !self.sessions().contains_key(id) ==> r == Err::<(), ForgeRefusal>(
                ForgeRefusal::Unknown(id),
            ),
            self.sessions().contains_key(id) ==> r == (if phase_allows_build(
                self.sessions()[id].phase,
            ) {
                Ok::<(), ForgeRefusal>(())
            } else {
                Err(ForgeRefusal::NotReady(id, self.sessions()[id].phase))
            }),
    {
        match self.sessions.get(&id) {
            None => Err(ForgeRefusal::Unknown(id)),
            Some(s) => if can_build(s.phase) {
                Ok(())
            } else {
                Err(ForgeRefusal::NotReady(id, s.phase))
            },
        }
    }

    /// Turns auto-fix of creation `id` on or off; nothing happens for an
    /// unknown id.
    pub fn set_auto_fix(&mut self, id: u64, enabled: bool)
        ensures
            final(self).next_id() == old(self).next_id(),
            final(self).sessions().dom() == old(self).sessions().dom(),
            old(self).sessions().contains_key(id) ==> final(self).sessions()[id].auto_fix == enabled
                && same_identity(final(self).sessions()[id], old(self).sessions()[id])
                && final(self).sessions()[id].phase == old(self).sessions()[id].phase,
            forall|k: u64| k != id && #[trigger] old(self).sessions().contains_key(k)
                ==> final(self).sessions()[k] == old(self).sessions()[k],
    {
        let ghost before = self.sessions@;
        if let Some(mut s) = self.sessions.remove(&id) {
            s.set_auto_fix(enabled);
            self.sessions.insert(id, s);
            proof {
                assert(self.sessions@.dom() =~= before.dom());
            }
        } else {
            proof {
                assert(self.sessions@ =~= before);
            }
        }
    }
}

} // verus!
