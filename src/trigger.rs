use vstd::prelude::*;
use crate::registry::{id_set, Registry};
use crate::text::{push_text, same_text};

verus! {

/// When the host build system should run generation again.
#[derive(Clone, Debug)]
pub enum BuildPattern {
    /// No forced re-run beyond the host's default behaviour.
    Lazy,
    /// Re-run on every build.
    RealTime,
    /// Re-run when one of the listed identifiers' backing inputs changes.
    Custom(Vec<String>),
}

/// One re-run directive for the host build system.
#[derive(Clone, Debug)]
pub enum Trigger {
    /// Re-run on every build, by watching the artifact that every run rewrites.
    Always(String),
    /// Re-run when the input behind this identifier changes.
    IfEnvChanged(String),
}

/// The identifiers of `keys`, in order, that lie in `wanted`.
pub open spec fn chosen(keys: Seq<Seq<char>>, wanted: Set<Seq<char>>) -> Seq<Seq<char>>
    decreases keys.len(),
{
    if keys.len() == 0 {
        Seq::empty()
    } else if wanted.contains(keys.last()) {
        chosen(keys.drop_last(), wanted).push(keys.last())
    } else {
        chosen(keys.drop_last(), wanted)
    }
}

/// The identifiers chosen are exactly those in both lists.
pub proof fn lemma_chosen_members(keys: Seq<Seq<char>>, wanted: Set<Seq<char>>)
    ensures
        forall|k: Seq<char>|
            #[trigger] chosen(keys, wanted).contains(k) <==> keys.contains(k) && wanted.contains(k),
    decreases keys.len(),
{
    if keys.len() > 0 {
        lemma_chosen_members(keys.drop_last(), wanted);
        let prev = chosen(keys.drop_last(), wanted);
        assert forall|k: Seq<char>| #[trigger] chosen(keys, wanted).contains(k) <==> keys.contains(k)
            && wanted.contains(k) by {
            if keys.contains(k) && k != keys.last() {
                let i = choose|i: int| 0 <= i < keys.len() && keys[i] == k;
                assert(keys.drop_last()[i] == k);
            }
            if keys.drop_last().contains(k) {
                let i = choose|i: int| 0 <= i < keys.drop_last().len() && keys.drop_last()[i] == k;
                assert(keys[i] == k);
            }
            if wanted.contains(keys.last()) {
                assert(chosen(keys, wanted) == prev.push(keys.last()));
                if prev.push(keys.last()).contains(k) && k != keys.last() {
                    let i = choose|i: int| 0 <= i < prev.len() + 1 && prev.push(keys.last())[i] == k;
                    assert(prev[i] == k);
                }
                if prev.contains(k) {
                    let i = choose|i: int| 0 <= i < prev.len() && prev[i] == k;
                    assert(prev.push(keys.last())[i] == k);
                }
                assert(prev.push(keys.last())[prev.len() as int] == keys.last());
            }
            assert(keys[keys.len() - 1] == keys.last());
        }
    }
}

/// Whether `t` re-runs on every build, by watching `file`.
pub open spec fn is_always(t: Trigger, file: Seq<char>) -> bool {
    t matches Trigger::Always(p) && p@ == file
}

/// Whether `t` re-runs when the input behind `k` changes.
pub open spec fn is_if_changed(t: Trigger, k: Seq<char>) -> bool {
    t matches Trigger::IfEnvChanged(x) && x@ == k
}

/// The directives of a pattern for a registry listing `keys`, with `file` the artifact.
pub open spec fn selects(
    p: BuildPattern,
    keys: Seq<Seq<char>>,
    file: Seq<char>,
    r: Seq<Trigger>,
) -> bool {
    match p {
        BuildPattern::Lazy => r.len() == 0,
        BuildPattern::RealTime => r.len() == 1 && is_always(r[0], file),
        BuildPattern::Custom(ks) => {
            let c = chosen(keys, id_set(ks@));
            r.len() == c.len() && forall|i: int| 0 <= i < c.len() ==> is_if_changed(#[trigger] r[i], c[i])
        },
    }
}

/// Whether `k` is listed in `ks`.
fn listed(ks: &Vec<String>, k: &String) -> (r: bool)
    ensures
        r == id_set(ks@).contains(k@),
{
    let mut i: usize = 0;
    while i < ks.len()
        invariant
            i <= ks@.len(),
            forall|j: int| 0 <= j < i ==> ks@[j]@ != k@,
        decreases ks@.len() - i,
    {
        if same_text(ks[i].as_str(), k.as_str()) {
            assert(ks@[i as int]@ == k@);
            return true;
        }
        i = i + 1;
    }
    false
}

/// The re-run directives of `p` for the registry `reg`, whose artifact is `file`.
pub fn select(p: &BuildPattern, reg: &Registry, file: &String) -> (r: Vec<Trigger>)
    requires
        reg.wf(),
    ensures
        selects(*p, reg.key_seq(), file@, r@),
{
    let mut out: Vec<Trigger> = Vec::new();
    match p {
        BuildPattern::Lazy => {},
        BuildPattern::RealTime => {
            out.push(Trigger::Always(file.clone()));
        },
        BuildPattern::Custom(ks) => {
            let ghost keys = reg.key_seq();
            let ghost wanted = id_set(ks@);
            let n = reg.len();
            let mut i: usize = 0;
            while i < n
                invariant
                    reg.wf(),
                    n == keys.len(),
                    keys == reg.key_seq(),
                    wanted == id_set(ks@),
                    i <= n,
                    out@.len() == chosen(keys.subrange(0, i as int), wanted).len(),
                    forall|j: int|
                        0 <= j < out@.len() ==> is_if_changed(
                            #[trigger] out@[j],
                            chosen(keys.subrange(0, i as int), wanted)[j],
                        ),
                decreases n - i,
            {
                let k = reg.key_at(i);
                let ghost prev = chosen(keys.subrange(0, i as int), wanted);
                let ghost next = chosen(keys.subrange(0, i + 1), wanted);
                proof {
                    assert(keys.subrange(0, i + 1).drop_last() =~= keys.subrange(0, i as int));
                    let sub = keys.subrange(0, i + 1);
                    assert(sub.len() > 0);
                    assert(sub.last() == k@);
                    assert(next == if wanted.contains(sub.last()) {
                        chosen(sub.drop_last(), wanted).push(sub.last())
                    } else {
                        chosen(sub.drop_last(), wanted)
                    });
                }
                if listed(ks, k) {
                    out.push(Trigger::IfEnvChanged(k.clone()));
                    proof {
                        assert(next == prev.push(k@));
                        assert forall|j: int| 0 <= j < out@.len() implies is_if_changed(
                            #[trigger] out@[j],
                            next[j],
                        ) by {
                            if j < prev.len() {
                                assert(next[j] == prev[j]);
                            }
                        }
                    }
                } else {
                    assert(next == prev);
                }
                i = i + 1;
            }
            proof {
                assert(keys.subrange(0, n as int) =~= keys);
            }
        },
    }
    out
}

pub const RERUN_IF_CHANGED: &'static str = "cargo:rerun-if-changed=";

pub const RERUN_IF_ENV_CHANGED: &'static str = "cargo:rerun-if-env-changed=";

/// The text by which the host build system is told of a directive.
pub open spec fn directive_text(t: Trigger) -> Seq<char> {
    match t {
        Trigger::Always(p) => RERUN_IF_CHANGED@ + p@,
        Trigger::IfEnvChanged(k) => RERUN_IF_ENV_CHANGED@ + k@,
    }
}

impl Trigger {
    /// The directive as a line for the host build system.
    pub fn directive(&self) -> (r: String)
        ensures
            r@ == directive_text(*self),
    {
        let mut out = String::new();
        match self {
            Trigger::Always(p) => {
                push_text(&mut out, RERUN_IF_CHANGED);
                push_text(&mut out, p.as_str());
            },
            Trigger::IfEnvChanged(k) => {
                push_text(&mut out, RERUN_IF_ENV_CHANGED);
                push_text(&mut out, k.as_str());
            },
        }
        assert(out@ =~= directive_text(*self));
        out
    }
}

} // verus!
