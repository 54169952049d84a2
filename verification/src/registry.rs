//! The state store: the players known on the bus, their last observed
//! statuses, the current selection, the remembered selection and the
//! focus hint, with the operations the listeners drive it by.

use vstd::prelude::*;
use crate::config::Selection;
use crate::election::{
    spec_filter_pass, player_filter_match, spec_status_of, statuses_view, spec_select,
    recompute_selected,
};
use crate::text::str_eq;

verus! {

/// The seeded player list: the given names that pass the filter, first
/// occurrences only, in their given order.
pub open spec fn spec_seed(
    names: Seq<Seq<char>>,
    allow: Seq<Seq<char>>,
    exclude: Seq<Seq<char>>,
) -> Seq<Seq<char>>
    decreases names.len(),
{
    if names.len() == 0 {
        Seq::empty()
    } else {
        let pre = spec_seed(names.drop_last(), allow, exclude);
        pre + if names.last().len() > 0 && spec_filter_pass(names.last(), allow, exclude)
            && !pre.contains(names.last()) {
            seq![names.last()]
        } else {
            Seq::empty()
        }
    }
}

/// The status map with one player's status set: the first pair under the
/// key updated, or a new pair appended.
pub open spec fn spec_upsert(
    m: Seq<(Seq<char>, Seq<char>)>,
    name: Seq<char>,
    status: Seq<char>,
) -> Seq<(Seq<char>, Seq<char>)>
    decreases m.len(),
{
    if m.len() == 0 {
        seq![(name, status)]
    } else if m[0].0 == name {
        seq![(name, status)] + m.drop_first()
    } else {
        seq![m[0]] + spec_upsert(m.drop_first(), name, status)
    }
}

/// After an upsert the written player reads the new status and every
/// other player reads what it read before.
pub proof fn lemma_upsert_lookup(
    m: Seq<(Seq<char>, Seq<char>)>,
    name: Seq<char>,
    status: Seq<char>,
    k: Seq<char>,
)
    ensures
        spec_status_of(spec_upsert(m, name, status), k) == if k == name {
            Some(status)
        } else {
            spec_status_of(m, k)
        },
    decreases m.len(),
{
    let u = spec_upsert(m, name, status);
    if m.len() == 0 {
        assert(u == seq![(name, status)]);
        assert(u[0] == (name, status));
        assert(u.drop_first() =~= Seq::<(Seq<char>, Seq<char>)>::empty());
        assert(spec_status_of(u.drop_first(), k) is None);
        assert(spec_status_of(m, k) is None);
    } else if m[0].0 == name {
        assert(u == seq![(name, status)] + m.drop_first());
        assert(u[0] == (name, status));
        assert(u.drop_first() =~= m.drop_first());
        if k != name {
            assert(spec_status_of(u, k) == spec_status_of(m.drop_first(), k));
            assert(spec_status_of(m, k) == spec_status_of(m.drop_first(), k));
        }
    } else {
        lemma_upsert_lookup(m.drop_first(), name, status, k);
        assert(u == seq![m[0]] + spec_upsert(m.drop_first(), name, status));
        assert(u[0] == m[0]);
        assert(u.drop_first() =~= spec_upsert(m.drop_first(), name, status));
    }
}

/// The in-memory registry.
pub struct Registry {
    pub players: Vec<String>,
    pub statuses: Vec<(String, String)>,
    pub selected: Option<String>,
    pub last_selected: Option<String>,
    pub focus_hint: Option<String>,
}

/// Character equality of two optional strings.
pub fn opt_str_eq(a: &Option<String>, b: &Option<String>) -> (r: bool)
    ensures
        r == (a.deep_view() == b.deep_view()),
{
    match (a, b) {
        (None, None) => true,
        (Some(x), Some(y)) => str_eq(x.as_str(), y.as_str()),
        _ => false,
    }
}

impl Registry {
    /// The empty registry the daemon starts with.
    pub fn new() -> (r: Self)
        ensures
            r.players@.len() == 0,
            r.statuses@.len() == 0,
            r.selected is None,
            r.last_selected is None,
            r.focus_hint is None,
    {
        Registry {
            players: Vec::new(),
            statuses: Vec::new(),
            selected: None,
            last_selected: None,
            focus_hint: None,
        }
    }

    /// Reseed the player set from an enumeration: non-empty names that
    /// pass the filter, without duplicates, in their given order.
    pub fn seed_players(&mut self, names: &Vec<String>, sel: &Selection)
        ensures
            final(self).players.deep_view() == spec_seed(
                names.deep_view(),
                sel@.allow,
                sel@.exclude,
            ),
            final(self).statuses == old(self).statuses,
            final(self).selected == old(self).selected,
            final(self).last_selected == old(self).last_selected,
            final(self).focus_hint == old(self).focus_hint,
    {
        let ghost nv = names.deep_view();
        let mut ps: Vec<String> = Vec::new();
        let mut i: usize = 0;
        proof {
            assert(ps.deep_view() =~= spec_seed(nv.take(0), sel@.allow, sel@.exclude));
        }
        while i < names.len()
            invariant
                i <= names@.len(),
                nv == names.deep_view(),
                sel@.allow == sel.allow.deep_view(),
                sel@.exclude == sel.exclude.deep_view(),
                ps.deep_view() == spec_seed(nv.take(i as int), sel@.allow, sel@.exclude),
            decreases names@.len() - i,
        {
            let ghost pre = ps.deep_view();
            proof {
                assert(nv.take(i as int + 1).drop_last() =~= nv.take(i as int));
                assert(nv.take(i as int + 1).last() == nv[i as int]);
            }
            let name = &names[i];
            if name.as_str().unicode_len() > 0 && player_filter_match(
                name.as_str(),
                &sel.allow,
                &sel.exclude,
            ) && !crate::election::vec_contains_str(&ps, name.as_str()) {
                ps.push(name.clone());
                proof {
                    assert(ps.deep_view() =~= pre + seq![nv[i as int]]);
                }
            } else {
                proof {
                    assert(pre + Seq::<Seq<char>>::empty() =~= pre);
                }
            }
            i = i + 1;
        }
        proof {
            assert(nv.take(names@.len() as int) =~= nv);
        }
        self.players = ps;
    }

    /// Replace the whole status map, as a bus-driven refresh does.
    pub fn replace_statuses(&mut self, sts: Vec<(String, String)>)
        ensures
            final(self).statuses == sts,
            final(self).players == old(self).players,
            final(self).selected == old(self).selected,
            final(self).last_selected == old(self).last_selected,
            final(self).focus_hint == old(self).focus_hint,
    {
        self.statuses = sts;
    }

    /// Record one player's status, as a follower line does: the player
    /// reads the new status afterwards and every other player reads what
    /// it read before.
    pub fn set_status(&mut self, name: &str, status: &str)
        ensures
            statuses_view(final(self).statuses@) == spec_upsert(
                statuses_view(old(self).statuses@),
                name@,
                status@,
            ),
            spec_status_of(statuses_view(final(self).statuses@), name@) == Some(status@),
            forall|k: Seq<char>|
                k != name@ ==> #[trigger] spec_status_of(statuses_view(final(self).statuses@), k)
                    == spec_status_of(statuses_view(old(self).statuses@), k),
            final(self).players == old(self).players,
            final(self).selected == old(self).selected,
            final(self).last_selected == old(self).last_selected,
            final(self).focus_hint == old(self).focus_hint,
    {
        let ghost m = statuses_view(self.statuses@);
        let mut out: Vec<(String, String)> = Vec::new();
        let mut i: usize = 0;
        proof {
            assert(m.skip(0) =~= m);
        }
        while i < self.statuses.len()
            invariant
                *self == *old(self),
                i <= self.statuses@.len(),
                m == statuses_view(self.statuses@),
                forall|j: int| 0 <= j < i ==> m[j].0 != name@,
                statuses_view(out@) =~= m.take(i as int),
            decreases self.statuses@.len() - i,
        {
            let pair = &self.statuses[i];
            proof {
                assert(m[i as int] == (pair.0@, pair.1@));
            }
            if str_eq(pair.0.as_str(), name) {
                let ghost outv = statuses_view(out@);
                out.push((String::from_str(name), String::from_str(status)));
                proof {
                    assert(statuses_view(out@) =~= outv.push((name@, status@)));
                }
                let mut k: usize = i + 1;
                while k < self.statuses.len()
                    invariant
                        *self == *old(self),
                        i < k <= self.statuses@.len(),
                        m == statuses_view(self.statuses@),
                        statuses_view(out@) =~= m.take(i as int).push((name@, status@))
                            + m.subrange(i as int + 1, k as int),
                    decreases self.statuses@.len() - k,
                {
                    let p2 = &self.statuses[k];
                    let ghost outv2 = statuses_view(out@);
                    proof {
                        assert(m[k as int] == (p2.0@, p2.1@));
                    }
                    out.push((p2.0.clone(), p2.1.clone()));
                    proof {
                        assert(statuses_view(out@) =~= outv2.push(m[k as int]));
                        assert(m.subrange(i as int + 1, k as int).push(m[k as int]) =~= m.subrange(
                            i as int + 1,
                            k as int + 1,
                        ));
                        assert(statuses_view(out@) =~= m.take(i as int).push((name@, status@))
                            + m.subrange(i as int + 1, k as int + 1));
                    }
                    k = k + 1;
                }
                proof {
                    assert(m.subrange(i as int + 1, self.statuses@.len() as int) =~= m.skip(
                        i as int + 1,
                    ));
                    lemma_upsert_prefix(m, name@, status@, i as int);
                    assert(statuses_view(out@) =~= spec_upsert(m, name@, status@));
                }
                self.statuses = out;
                proof {
                    lemma_upsert_lookups(m, name@, status@);
                }
                return ;
            }
            let ghost outv = statuses_view(out@);
            out.push((pair.0.clone(), pair.1.clone()));
            proof {
                assert(statuses_view(out@) =~= outv.push(m[i as int]));
                assert(m.take(i as int).push(m[i as int]) =~= m.take(i as int + 1));
            }
            i = i + 1;
        }
        let ghost outv = statuses_view(out@);
        out.push((String::from_str(name), String::from_str(status)));
        proof {
            assert(m.take(self.statuses@.len() as int) =~= m);
            assert(statuses_view(out@) =~= m.push((name@, status@)));
            lemma_upsert_absent(m, name@, status@);
            assert(statuses_view(out@) =~= spec_upsert(m, name@, status@));
        }
        self.statuses = out;
        proof {
            lemma_upsert_lookups(m, name@, status@);
        }
    }

    /// Record the focus hint.
    pub fn set_focus(&mut self, hint: Option<String>)
        ensures
            final(self).focus_hint == hint,
            final(self).players == old(self).players,
            final(self).statuses == old(self).statuses,
            final(self).selected == old(self).selected,
            final(self).last_selected == old(self).last_selected,
    {
        self.focus_hint = hint;
    }

    /// Set the selection, reporting whether it changed; a non-empty
    /// selection is also remembered as the last one ever made.
    pub fn set_selected(&mut self, name: Option<String>) -> (changed: bool)
        ensures
            changed == (old(self).selected.deep_view() != name.deep_view()),
            final(self).selected.deep_view() == name.deep_view(),
            name is Some ==> final(self).last_selected.deep_view() == name.deep_view(),
            name is None ==> final(self).last_selected == old(self).last_selected,
            final(self).players == old(self).players,
            final(self).statuses == old(self).statuses,
            final(self).focus_hint == old(self).focus_hint,
    {
        let changed = !opt_str_eq(&self.selected, &name);
        match &name {
            Some(n) => {
                self.last_selected = Some(n.clone());
            },
            None => {},
        }
        self.selected = name;
        changed
    }

    /// Run the election over the registry's current contents.
    pub fn recompute(&self, sel: &Selection) -> (r: Option<String>)
        ensures
            r.deep_view() == spec_select(
                self.players.deep_view(),
                statuses_view(self.statuses@),
                self.focus_hint.deep_view(),
                self.last_selected.deep_view(),
                sel@,
            ),
    {
        recompute_selected(&self.players, &self.statuses, &self.focus_hint, &self.last_selected, sel)
    }
}

/// If the first `i` keys differ from `name` and key `i` matches, the
/// upsert rewrites exactly entry `i`.
proof fn lemma_upsert_prefix(m: Seq<(Seq<char>, Seq<char>)>, name: Seq<char>, status: Seq<char>, i: int)
    requires
        0 <= i < m.len(),
        forall|j: int| 0 <= j < i ==> m[j].0 != name,
        m[i].0 == name,
    ensures
        spec_upsert(m, name, status) == m.take(i).push((name, status)) + m.skip(i + 1),
    decreases i,
{
    if i == 0 {
        assert(spec_upsert(m, name, status) == seq![(name, status)] + m.drop_first());
        assert(m.take(0).push((name, status)) =~= seq![(name, status)]);
        assert(m.drop_first() =~= m.skip(1));
        assert(seq![(name, status)] + m.skip(1) =~= m.take(0).push((name, status)) + m.skip(1));
    } else {
        let t = m.drop_first();
        assert(forall|k: int| 0 <= k < t.len() ==> t[k] == m[k + 1]);
        lemma_upsert_prefix(t, name, status, i - 1);
        assert(spec_upsert(m, name, status) == seq![m[0]] + spec_upsert(t, name, status));
        assert(t.take(i - 1) =~= m.subrange(1, i));
        assert(t.skip(i) =~= m.skip(i + 1));
        assert(seq![m[0]] + (m.subrange(1, i).push((name, status)) + m.skip(i + 1)) =~= m.take(
            i,
        ).push((name, status)) + m.skip(i + 1));
    }
}

/// If no key matches `name`, the upsert appends a new entry.
proof fn lemma_upsert_absent(m: Seq<(Seq<char>, Seq<char>)>, name: Seq<char>, status: Seq<char>)
    requires
        forall|j: int| 0 <= j < m.len() ==> m[j].0 != name,
    ensures
        spec_upsert(m, name, status) == m.push((name, status)),
    decreases m.len(),
{
    if m.len() == 0 {
        assert(spec_upsert(m, name, status) =~= m.push((name, status)));
    } else {
        let t = m.drop_first();
        assert(forall|k: int| 0 <= k < t.len() ==> t[k] == m[k + 1]);
        lemma_upsert_absent(t, name, status);
        assert(seq![m[0]] + t.push((name, status)) =~= m.push((name, status)));
    }
}

/// The lookup consequences of one upsert, for every key.
proof fn lemma_upsert_lookups(m: Seq<(Seq<char>, Seq<char>)>, name: Seq<char>, status: Seq<char>)
    ensures
        spec_status_of(spec_upsert(m, name, status), name) == Some(status),
        forall|k: Seq<char>|
            k != name ==> #[trigger] spec_status_of(spec_upsert(m, name, status), k)
                == spec_status_of(m, k),
{
    lemma_upsert_lookup(m, name, status, name);
    assert forall|k: Seq<char>| k != name implies #[trigger] spec_status_of(
        spec_upsert(m, name, status),
        k,
    ) == spec_status_of(m, k) by {
        lemma_upsert_lookup(m, name, status, k);
    }
}

} // verus!
