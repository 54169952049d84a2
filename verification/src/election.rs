//! The player election: a pure function from the known players, their
//! statuses, the focus hint, the remembered selection and the selection
//! policy to at most one selected player.

use vstd::prelude::*;
use crate::config::{Selection, SelView, Fallback};
use crate::text::{spec_starts_with, starts_with_str, spec_ci_prefix, starts_with_ci, str_eq};

verus! {

/// Some element of `list` is a prefix of `name`.
pub open spec fn spec_any_prefix(name: Seq<char>, list: Seq<Seq<char>>) -> bool {
    exists|i: int| 0 <= i < list.len() && spec_starts_with(name, #[trigger] list[i])
}

/// A player passes the allow/exclude filter: the allow list is empty or
/// holds a prefix of the name, and no exclude entry is a prefix of it.
pub open spec fn spec_filter_pass(
    name: Seq<char>,
    allow: Seq<Seq<char>>,
    exclude: Seq<Seq<char>>,
) -> bool {
    &&& allow.len() == 0 || spec_any_prefix(name, allow)
    &&& !spec_any_prefix(name, exclude)
}

/// Whether some element of `list` is a prefix of `name`.
pub fn any_prefix(name: &str, list: &Vec<String>) -> (r: bool)
    ensures
        r == spec_any_prefix(name@, list.deep_view()),
{
    let mut i: usize = 0;
    while i < list.len()
        invariant
            i <= list@.len(),
            forall|j: int| 0 <= j < i ==> !spec_starts_with(name@, #[trigger] list.deep_view()[j]),
        decreases list@.len() - i,
    {
        if starts_with_str(name, list[i].as_str()) {
            proof {
                assert(spec_starts_with(name@, list.deep_view()[i as int]));
            }
            return true;
        }
        i = i + 1;
    }
    false
}

/// Whether a player id passes the allow/exclude filter.
pub fn player_filter_match(name: &str, allow: &Vec<String>, exclude: &Vec<String>) -> (r: bool)
    ensures
        r == spec_filter_pass(name@, allow.deep_view(), exclude.deep_view()),
{
    (allow.len() == 0 || any_prefix(name, allow)) && !any_prefix(name, exclude)
}

/// The players of `ps` that pass the filter, in their given order.
pub open spec fn spec_keep(
    ps: Seq<Seq<char>>,
    allow: Seq<Seq<char>>,
    exclude: Seq<Seq<char>>,
) -> Seq<Seq<char>>
    decreases ps.len(),
{
    if ps.len() == 0 {
        Seq::empty()
    } else {
        spec_keep(ps.drop_last(), allow, exclude) + if spec_filter_pass(ps.last(), allow, exclude) {
            seq![ps.last()]
        } else {
            Seq::empty()
        }
    }
}

/// Everything `spec_keep` keeps passed the filter and was a player.
pub proof fn lemma_keep_elements(
    ps: Seq<Seq<char>>,
    allow: Seq<Seq<char>>,
    exclude: Seq<Seq<char>>,
)
    ensures
        forall|i: int|
            0 <= i < spec_keep(ps, allow, exclude).len() ==> spec_filter_pass(
                #[trigger] spec_keep(ps, allow, exclude)[i],
                allow,
                exclude,
            ) && ps.contains(spec_keep(ps, allow, exclude)[i]),
    decreases ps.len(),
{
    if ps.len() > 0 {
        let k = spec_keep(ps, allow, exclude);
        let kd = spec_keep(ps.drop_last(), allow, exclude);
        lemma_keep_elements(ps.drop_last(), allow, exclude);
        assert forall|i: int|
            0 <= i < k.len() implies spec_filter_pass(#[trigger] k[i], allow, exclude)
            && ps.contains(k[i]) by {
            if i < kd.len() {
                assert(k[i] == kd[i]);
                assert(ps.drop_last().contains(kd[i]));
                let j = choose|j: int| 0 <= j < ps.drop_last().len() && ps.drop_last()[j] == kd[i];
                assert(ps[j] == kd[i]);
            } else {
                assert(spec_filter_pass(ps.last(), allow, exclude));
                assert(k[i] == ps.last());
                assert(ps[ps.len() - 1] == ps.last());
            }
        }
    }
}

/// The status recorded for a player, if any.
pub open spec fn spec_status_of(
    sts: Seq<(Seq<char>, Seq<char>)>,
    name: Seq<char>,
) -> Option<Seq<char>>
    decreases sts.len(),
{
    if sts.len() == 0 {
        None
    } else if sts[0].0 == name {
        Some(sts[0].1)
    } else {
        spec_status_of(sts.drop_first(), name)
    }
}

/// The status-map view of a vector of (player, status) pairs.
pub open spec fn statuses_view(v: Seq<(String, String)>) -> Seq<(Seq<char>, Seq<char>)> {
    v.map_values(|p: (String, String)| (p.0@, p.1@))
}

/// The recorded status of a player.
pub fn status_of(statuses: &Vec<(String, String)>, name: &str) -> (r: Option<String>)
    ensures
        r.deep_view() == spec_status_of(statuses_view(statuses@), name@),
{
    let ghost m = statuses_view(statuses@);
    let mut i: usize = 0;
    proof {
        assert(m.skip(0) =~= m);
    }
    while i < statuses.len()
        invariant
            i <= statuses@.len(),
            m == statuses_view(statuses@),
            spec_status_of(m, name@) == spec_status_of(m.skip(i as int), name@),
        decreases statuses@.len() - i,
    {
        let pair = &statuses[i];
        proof {
            assert(m.skip(i as int)[0] == (pair.0@, pair.1@));
            assert(m.skip(i as int).drop_first() =~= m.skip(i as int + 1));
        }
        if str_eq(pair.0.as_str(), name) {
            return Some(pair.1.clone());
        }
        i = i + 1;
    }
    proof {
        assert(m.skip(i as int) =~= Seq::<(Seq<char>, Seq<char>)>::empty());
    }
    None
}

/// A player is playing when its recorded status is exactly `Playing`.
pub open spec fn spec_is_playing(sts: Seq<(Seq<char>, Seq<char>)>, name: Seq<char>) -> bool {
    spec_status_of(sts, name) == Some("Playing"@)
}

/// Whether a player's recorded status is `Playing`.
pub fn is_playing(statuses: &Vec<(String, String)>, name: &str) -> (r: bool)
    ensures
        r == spec_is_playing(statuses_view(statuses@), name@),
{
    match status_of(statuses, name) {
        Some(s) => str_eq(s.as_str(), "Playing"),
        None => false,
    }
}

/// The players of `ps` whose recorded status is `Playing`, in order.
pub open spec fn spec_playing(
    ps: Seq<Seq<char>>,
    sts: Seq<(Seq<char>, Seq<char>)>,
) -> Seq<Seq<char>>
    decreases ps.len(),
{
    if ps.len() == 0 {
        Seq::empty()
    } else {
        spec_playing(ps.drop_last(), sts) + if spec_is_playing(sts, ps.last()) {
            seq![ps.last()]
        } else {
            Seq::empty()
        }
    }
}

/// Everything `spec_playing` keeps was in the candidate list.
pub proof fn lemma_playing_elements(ps: Seq<Seq<char>>, sts: Seq<(Seq<char>, Seq<char>)>)
    ensures
        forall|i: int|
            0 <= i < spec_playing(ps, sts).len() ==> ps.contains(
                #[trigger] spec_playing(ps, sts)[i],
            ),
    decreases ps.len(),
{
    if ps.len() > 0 {
        let k = spec_playing(ps, sts);
        let kd = spec_playing(ps.drop_last(), sts);
        lemma_playing_elements(ps.drop_last(), sts);
        assert forall|i: int| 0 <= i < k.len() implies ps.contains(#[trigger] k[i]) by {
            if i < kd.len() {
                assert(k[i] == kd[i]);
                assert(ps.drop_last().contains(kd[i]));
                let j = choose|j: int| 0 <= j < ps.drop_last().len() && ps.drop_last()[j] == kd[i];
                assert(ps[j] == kd[i]);
            } else {
                assert(k[i] == ps.last());
                assert(ps[ps.len() - 1] == ps.last());
            }
        }
    }
}

/// The first element of `list` that `prefix` is a prefix of.
pub open spec fn spec_first_prefix(list: Seq<Seq<char>>, prefix: Seq<char>) -> Option<Seq<char>>
    decreases list.len(),
{
    if list.len() == 0 {
        None
    } else if spec_starts_with(list[0], prefix) {
        Some(list[0])
    } else {
        spec_first_prefix(list.drop_first(), prefix)
    }
}

/// A first prefix match is an element of the list.
pub proof fn lemma_first_prefix_mem(list: Seq<Seq<char>>, prefix: Seq<char>, x: Seq<char>)
    requires
        spec_first_prefix(list, prefix) == Some(x),
    ensures
        list.contains(x),
    decreases list.len(),
{
    if list.len() > 0 && !spec_starts_with(list[0], prefix) {
        lemma_first_prefix_mem(list.drop_first(), prefix, x);
        let i = choose|i: int| 0 <= i < list.drop_first().len() && list.drop_first()[i] == x;
        assert(list[i + 1] == x);
    }
}

/// Find the first element `prefix` is a prefix of.
pub fn find_prefix(list: &Vec<String>, prefix: &str) -> (r: Option<String>)
    ensures
        r.deep_view() == spec_first_prefix(list.deep_view(), prefix@),
{
    let ghost lv = list.deep_view();
    let mut i: usize = 0;
    proof {
        assert(lv.skip(0) =~= lv);
    }
    while i < list.len()
        invariant
            i <= list@.len(),
            lv == list.deep_view(),
            spec_first_prefix(lv, prefix@) == spec_first_prefix(lv.skip(i as int), prefix@),
        decreases list@.len() - i,
    {
        proof {
            assert(lv.skip(i as int)[0] == lv[i as int]);
            assert(lv.skip(i as int).drop_first() =~= lv.skip(i as int + 1));
        }
        if starts_with_str(list[i].as_str(), prefix) {
            return Some(list[i].clone());
        }
        i = i + 1;
    }
    proof {
        assert(lv.skip(i as int) =~= Seq::<Seq<char>>::empty());
    }
    None
}

/// The first match of the priority list: for each priority prefix in
/// order, the first list element it prefixes.
pub open spec fn spec_first_priority(
    list: Seq<Seq<char>>,
    priority: Seq<Seq<char>>,
) -> Option<Seq<char>>
    decreases priority.len(),
{
    if priority.len() == 0 {
        None
    } else {
        match spec_first_prefix(list, priority[0]) {
            Some(x) => Some(x),
            None => spec_first_priority(list, priority.drop_first()),
        }
    }
}

/// A priority match is an element of the list.
pub proof fn lemma_first_priority_mem(list: Seq<Seq<char>>, priority: Seq<Seq<char>>, x: Seq<char>)
    requires
        spec_first_priority(list, priority) == Some(x),
    ensures
        list.contains(x),
    decreases priority.len(),
{
    if priority.len() > 0 {
        match spec_first_prefix(list, priority[0]) {
            Some(y) => {
                lemma_first_prefix_mem(list, priority[0], y);
            },
            None => {
                lemma_first_priority_mem(list, priority.drop_first(), x);
            },
        }
    }
}

/// Find the first priority match.
pub fn find_priority(list: &Vec<String>, priority: &Vec<String>) -> (r: Option<String>)
    ensures
        r.deep_view() == spec_first_priority(list.deep_view(), priority.deep_view()),
{
    let ghost pv = priority.deep_view();
    let mut i: usize = 0;
    proof {
        assert(pv.skip(0) =~= pv);
    }
    while i < priority.len()
        invariant
            i <= priority@.len(),
            pv == priority.deep_view(),
            spec_first_priority(list.deep_view(), pv) == spec_first_priority(
                list.deep_view(),
                pv.skip(i as int),
            ),
        decreases priority@.len() - i,
    {
        proof {
            assert(pv.skip(i as int)[0] == pv[i as int]);
            assert(pv.skip(i as int).drop_first() =~= pv.skip(i as int + 1));
        }
        match find_prefix(list, priority[i].as_str()) {
            Some(x) => {
                return Some(x);
            },
            None => {},
        }
        i = i + 1;
    }
    proof {
        assert(pv.skip(i as int) =~= Seq::<Seq<char>>::empty());
    }
    None
}

/// Whether the list holds exactly this string.
pub fn vec_contains_str(list: &Vec<String>, x: &str) -> (r: bool)
    ensures
        r == list.deep_view().contains(x@),
{
    let mut i: usize = 0;
    while i < list.len()
        invariant
            i <= list@.len(),
            forall|j: int| 0 <= j < i ==> list.deep_view()[j] != x@,
        decreases list@.len() - i,
    {
        if str_eq(list[i].as_str(), x) {
            proof {
                assert(list.deep_view()[i as int] == x@);
            }
            return true;
        }
        i = i + 1;
    }
    proof {
        if list.deep_view().contains(x@) {
            let j = choose|j: int| 0 <= j < list.deep_view().len() && list.deep_view()[j] == x@;
            assert(list.deep_view()[j] != x@);
        }
    }
    false
}

/// The election: deterministic and free of side effects. Candidates are
/// the known players that pass the filter; among playing candidates the
/// focus hint wins, then the priority order, then the candidates' own
/// order; with nothing playing, the remembered selection wins if still a
/// candidate, then the focus hint, then the priority order, then — only
/// under the `Any` fallback — the first candidate.
pub open spec fn spec_select(
    players: Seq<Seq<char>>,
    sts: Seq<(Seq<char>, Seq<char>)>,
    focus: Option<Seq<char>>,
    last: Option<Seq<char>>,
    sel: SelView,
) -> Option<Seq<char>> {
    let cand = spec_keep(players, sel.allow, sel.exclude);
    if cand.len() == 0 {
        None
    } else {
        let playing = spec_playing(cand, sts);
        if playing.len() > 0 {
            let by_focus = match focus {
                Some(f) => spec_first_prefix(playing, f),
                None => None,
            };
            if by_focus is Some {
                by_focus
            } else if spec_first_priority(playing, sel.priority) is Some {
                spec_first_priority(playing, sel.priority)
            } else {
                Some(playing[0])
            }
        } else {
            let remembered = match last {
                Some(l) => sel.remember_last && cand.contains(l),
                None => false,
            };
            if remembered {
                last
            } else {
                let by_focus = match focus {
                    Some(f) => spec_first_prefix(cand, f),
                    None => None,
                };
                if by_focus is Some {
                    by_focus
                } else if spec_first_priority(cand, sel.priority) is Some {
                    spec_first_priority(cand, sel.priority)
                } else if sel.fallback == Fallback::Any {
                    Some(cand[0])
                } else {
                    None
                }
            }
        }
    }
}

/// Recompute the selection. Pure: the result depends on the arguments
/// alone, and equal inputs give equal results.
pub fn recompute_selected(
    players: &Vec<String>,
    statuses: &Vec<(String, String)>,
    focus: &Option<String>,
    last_selected: &Option<String>,
    sel: &Selection,
) -> (r: Option<String>)
    ensures
        r.deep_view() == spec_select(
            players.deep_view(),
            statuses_view(statuses@),
            focus.deep_view(),
            last_selected.deep_view(),
            sel@,
        ),
{
    let ghost pv = players.deep_view();
    let mut cand: Vec<String> = Vec::new();
    let mut i: usize = 0;
    proof {
        assert(cand.deep_view() =~= spec_keep(pv.take(0), sel@.allow, sel@.exclude));
    }
    while i < players.len()
        invariant
            i <= players@.len(),
            pv == players.deep_view(),
            cand.deep_view() == spec_keep(pv.take(i as int), sel@.allow, sel@.exclude),
            sel@.allow == sel.allow.deep_view(),
            sel@.exclude == sel.exclude.deep_view(),
        decreases players@.len() - i,
    {
        let ghost pre = cand.deep_view();
        proof {
            assert(pv.take(i as int + 1).drop_last() =~= pv.take(i as int));
            assert(pv.take(i as int + 1).last() == pv[i as int]);
        }
        if player_filter_match(players[i].as_str(), &sel.allow, &sel.exclude) {
            cand.push(players[i].clone());
            proof {
                assert(cand.deep_view() =~= pre + seq![pv[i as int]]);
            }
        } else {
            proof {
                assert(pre + Seq::<Seq<char>>::empty() =~= pre);
            }
        }
        i = i + 1;
    }
    proof {
        assert(pv.take(players@.len() as int) =~= pv);
    }
    if cand.len() == 0 {
        return None;
    }
    let ghost cv = cand.deep_view();
    let ghost sv = statuses_view(statuses@);
    let mut playing: Vec<String> = Vec::new();
    let mut j: usize = 0;
    proof {
        assert(playing.deep_view() =~= spec_playing(cv.take(0), sv));
    }
    while j < cand.len()
        invariant
            j <= cand@.len(),
            cv == cand.deep_view(),
            sv == statuses_view(statuses@),
            playing.deep_view() == spec_playing(cv.take(j as int), sv),
        decreases cand@.len() - j,
    {
        let ghost pre = playing.deep_view();
        proof {
            assert(cv.take(j as int + 1).drop_last() =~= cv.take(j as int));
            assert(cv.take(j as int + 1).last() == cv[j as int]);
        }
        if is_playing(statuses, cand[j].as_str()) {
            playing.push(cand[j].clone());
            proof {
                assert(playing.deep_view() =~= pre + seq![cv[j as int]]);
            }
        } else {
            proof {
                assert(pre + Seq::<Seq<char>>::empty() =~= pre);
            }
        }
        j = j + 1;
    }
    proof {
        assert(cv.take(cand@.len() as int) =~= cv);
    }
    if playing.len() > 0 {
        if let Some(f) = focus {
            match find_prefix(&playing, f.as_str()) {
                Some(p) => {
                    return Some(p);
                },
                None => {},
            }
        }
        match find_priority(&playing, &sel.priority) {
            Some(p) => {
                return Some(p);
            },
            None => {},
        }
        return Some(playing[0].clone());
    }
    if sel.remember_last {
        if let Some(l) = last_selected {
            if vec_contains_str(&cand, l.as_str()) {
                return Some(l.clone());
            }
        }
    }
    if let Some(f) = focus {
        match find_prefix(&cand, f.as_str()) {
            Some(p) => {
                return Some(p);
            },
            None => {},
        }
    }
    match find_priority(&cand, &sel.priority) {
        Some(p) => {
            return Some(p);
        },
        None => {},
    }
    if matches!(sel.fallback, Fallback::Any) {
        return Some(cand[0].clone());
    }
    None
}

/// The election is deterministic: equal inputs elect the same player.
pub proof fn lemma_election_deterministic(
    players1: Seq<Seq<char>>,
    sts1: Seq<(Seq<char>, Seq<char>)>,
    focus1: Option<Seq<char>>,
    last1: Option<Seq<char>>,
    sel1: SelView,
    players2: Seq<Seq<char>>,
    sts2: Seq<(Seq<char>, Seq<char>)>,
    focus2: Option<Seq<char>>,
    last2: Option<Seq<char>>,
    sel2: SelView,
)
    requires
        players1 == players2,
        sts1 == sts2,
        focus1 == focus2,
        last1 == last2,
        sel1 == sel2,
    ensures
        spec_select(players1, sts1, focus1, last1, sel1) == spec_select(
            players2,
            sts2,
            focus2,
            last2,
            sel2,
        ),
{
}

/// A player the filter refuses — in particular one with an excluded
/// prefix — is never elected.
pub proof fn lemma_excluded_never_selected(
    players: Seq<Seq<char>>,
    sts: Seq<(Seq<char>, Seq<char>)>,
    focus: Option<Seq<char>>,
    last: Option<Seq<char>>,
    sel: SelView,
    p: Seq<char>,
)
    requires
        spec_select(players, sts, focus, last, sel) == Some(p),
    ensures
        spec_filter_pass(p, sel.allow, sel.exclude),
        !spec_any_prefix(p, sel.exclude),
{
    let cand = spec_keep(players, sel.allow, sel.exclude);
    lemma_keep_elements(players, sel.allow, sel.exclude);
    let playing = spec_playing(cand, sts);
    lemma_playing_elements(cand, sts);
    assert(cand.len() > 0);
    if playing.len() > 0 {
        let by_focus = match focus {
            Some(f) => spec_first_prefix(playing, f),
            None => None,
        };
        if by_focus is Some {
            match focus {
                Some(f) => {
                    lemma_first_prefix_mem(playing, f, p);
                },
                None => {},
            }
        } else if spec_first_priority(playing, sel.priority) is Some {
            lemma_first_priority_mem(playing, sel.priority, p);
        } else {
            assert(playing.contains(p)) by {
                assert(playing[0] == p);
            }
        }
        assert(playing.contains(p));
        let i = choose|i: int| 0 <= i < playing.len() && playing[i] == p;
        assert(cand.contains(p));
    } else {
        let remembered = match last {
            Some(l) => sel.remember_last && cand.contains(l),
            None => false,
        };
        if remembered {
            assert(cand.contains(p));
        } else {
            let by_focus = match focus {
                Some(f) => spec_first_prefix(cand, f),
                None => None,
            };
            if by_focus is Some {
                match focus {
                    Some(f) => {
                        lemma_first_prefix_mem(cand, f, p);
                    },
                    None => {},
                }
            } else if spec_first_priority(cand, sel.priority) is Some {
                lemma_first_priority_mem(cand, sel.priority, p);
            } else {
                assert(cand.contains(p)) by {
                    assert(cand[0] == p);
                }
            }
        }
        assert(cand.contains(p));
    }
    let k = choose|k: int| 0 <= k < cand.len() && cand[k] == p;
    assert(spec_filter_pass(cand[k], sel.allow, sel.exclude));
}

/// The family hint a window class maps to: the known families compared
/// case-insensitively as prefixes of the class, or nothing.
pub open spec fn spec_class_hint(class: Seq<char>) -> Option<Seq<char>> {
    if spec_ci_prefix(class, "firefox"@) {
        Some("firefox"@)
    } else if spec_ci_prefix(class, "spotify"@) {
        Some("spotify"@)
    } else if spec_ci_prefix(class, "vlc"@) {
        Some("vlc"@)
    } else if spec_ci_prefix(class, "mpv"@) {
        Some("mpv"@)
    } else {
        None
    }
}

/// Map a window class to a player family hint.
pub fn map_class_to_hint(class: &str) -> (r: Option<String>)
    ensures
        r.deep_view() == spec_class_hint(class@),
{
    if starts_with_ci(class, "firefox") {
        Some(String::from_str("firefox"))
    } else if starts_with_ci(class, "spotify") {
        Some(String::from_str("spotify"))
    } else if starts_with_ci(class, "vlc") {
        Some(String::from_str("vlc"))
    } else if starts_with_ci(class, "mpv") {
        Some(String::from_str("mpv"))
    } else {
        None
    }
}

} // verus!
