//! The in-memory store of all schedules, with lookups by group number, by
//! teacher id and by teacher name.
use vstd::prelude::*;

use std::collections::HashMap;

use crate::structures::{Schedule, ScheduleVariant};
use crate::text::{chars_of, contains_chars, contains_seq, lowercase, parse_i32, str_parse_i32, to_lowercase};

verus! {

broadcast use vstd::std_specs::hash::group_hash_axioms;

pub open spec fn is_group_number(s: Schedule, n: i32) -> bool {
    s.schedule_type matches ScheduleVariant::Group(g) && g.number == n
}

pub open spec fn is_teacher_id(s: Schedule, isu_id: i32) -> bool {
    s.schedule_type matches ScheduleVariant::Teacher(t) && t.isu_id == isu_id
}

/// The index of the last schedule of group `n`, if there is one.
pub open spec fn last_group_index(s: Seq<Schedule>, n: i32) -> Option<int>
    decreases s.len(),
{
    if s.len() == 0 {
        None
    } else if is_group_number(s.last(), n) {
        Some(s.len() - 1)
    } else {
        last_group_index(s.drop_last(), n)
    }
}

/// The index of the last schedule of the teacher with `isu_id`, if there is one.
pub open spec fn last_teacher_index(s: Seq<Schedule>, isu_id: i32) -> Option<int>
    decreases s.len(),
{
    if s.len() == 0 {
        None
    } else if is_teacher_id(s.last(), isu_id) {
        Some(s.len() - 1)
    } else {
        last_teacher_index(s.drop_last(), isu_id)
    }
}

/// Each teacher's lower-cased name with the index of the teacher's schedule,
/// in the order of the schedules.
pub open spec fn teacher_names(s: Seq<Schedule>) -> Seq<(Seq<char>, int)>
    decreases s.len(),
{
    if s.len() == 0 {
        Seq::empty()
    } else {
        let rest = teacher_names(s.drop_last());
        match s.last().schedule_type {
            ScheduleVariant::Teacher(t) => rest.push((lowercase(t.name@), s.len() - 1)),
            ScheduleVariant::Group(_) => rest,
        }
    }
}

/// The schedules of the entries whose name contains `q`, in order.
pub open spec fn name_matches(entries: Seq<(Seq<char>, int)>, s: Seq<Schedule>, q: Seq<char>) -> Seq<
    Schedule,
>
    decreases entries.len(),
{
    if entries.len() == 0 {
        Seq::empty()
    } else {
        let rest = name_matches(entries.drop_last(), s, q);
        if contains_seq(entries.last().0, q) {
            rest.push(s[entries.last().1])
        } else {
            rest
        }
    }
}

/// What a search finds: for a query that parses as an `i32`, the schedule of
/// that group if there is one; for any other query, every teacher whose
/// lower-cased name contains the lower-cased query, in order.
pub open spec fn search_result(s: Seq<Schedule>, q: Seq<char>) -> Seq<Schedule> {
    match parse_i32(q) {
        Some(n) => match last_group_index(s, n) {
            Some(i) => seq![s[i]],
            None => Seq::empty(),
        },
        None => name_matches(teacher_names(s), s, lowercase(q)),
    }
}

pub proof fn lemma_last_group_index(s: Seq<Schedule>, n: i32)
    ensures
        last_group_index(s, n) matches Some(i) ==> 0 <= i < s.len() && is_group_number(s[i], n)
            && forall|j: int| i < j < s.len() ==> !is_group_number(#[trigger] s[j], n),
        last_group_index(s, n) is None ==> forall|j: int|
            0 <= j < s.len() ==> !is_group_number(#[trigger] s[j], n),
    decreases s.len(),
{
    if s.len() > 0 {
        lemma_last_group_index(s.drop_last(), n);
        assert forall|j: int| 0 <= j < s.len() - 1 implies s.drop_last()[j] == #[trigger] s[j] by {}
    }
}

pub proof fn lemma_last_teacher_index(s: Seq<Schedule>, isu_id: i32)
    ensures
        last_teacher_index(s, isu_id) matches Some(i) ==> 0 <= i < s.len() && is_teacher_id(
            s[i],
            isu_id,
        ) && forall|j: int| i < j < s.len() ==> !is_teacher_id(#[trigger] s[j], isu_id),
        last_teacher_index(s, isu_id) is None ==> forall|j: int|
            0 <= j < s.len() ==> !is_teacher_id(#[trigger] s[j], isu_id),
    decreases s.len(),
{
    if s.len() > 0 {
        lemma_last_teacher_index(s.drop_last(), isu_id);
        assert forall|j: int| 0 <= j < s.len() - 1 implies s.drop_last()[j] == #[trigger] s[j] by {}
    }
}

pub proof fn lemma_teacher_names_bounds(s: Seq<Schedule>)
    ensures
        forall|k: int|
            0 <= k < teacher_names(s).len() ==> 0 <= #[trigger] teacher_names(s)[k].1 < s.len(),
    decreases s.len(),
{
    if s.len() > 0 {
        lemma_teacher_names_bounds(s.drop_last());
        let rest = teacher_names(s.drop_last());
        assert forall|k: int| 0 <= k < teacher_names(s).len() implies 0 <= #[trigger] teacher_names(
            s,
        )[k].1 < s.len() by {
            if k < rest.len() {
                assert(teacher_names(s)[k] == rest[k]);
            }
        }
    }
}

pub struct ScheduleRepo {
    schedule: Vec<Schedule>,
    last_updated: Option<i64>,
    number_to_index: HashMap<i32, usize>,
    isu_id_to_index: HashMap<i32, usize>,
    names_to_index: Vec<(String, usize)>,
}

/// The group index matches `last_group_index` on `s`.
spec fn group_index_ok(m: Map<i32, usize>, s: Seq<Schedule>) -> bool {
    forall|n: i32|
        #![trigger m.contains_key(n)]
        #![trigger last_group_index(s, n)]
        (m.contains_key(n) <==> last_group_index(s, n) is Some) && (m.contains_key(n) ==> m[n]
            == last_group_index(s, n)->0)
}

/// The teacher index matches `last_teacher_index` on `s`.
spec fn teacher_index_ok(m: Map<i32, usize>, s: Seq<Schedule>) -> bool {
    forall|n: i32|
        #![trigger m.contains_key(n)]
        #![trigger last_teacher_index(s, n)]
        (m.contains_key(n) <==> last_teacher_index(s, n) is Some) && (m.contains_key(n) ==> m[n]
            == last_teacher_index(s, n)->0)
}

/// The name list matches `teacher_names` on `s`.
spec fn names_ok(v: Seq<(String, usize)>, s: Seq<Schedule>) -> bool {
    &&& v.len() == teacher_names(s).len()
    &&& forall|k: int|
        0 <= k < v.len() ==> (#[trigger] v[k]).0@ == teacher_names(s)[k].0 && v[k].1
            == teacher_names(s)[k].1
}

impl ScheduleRepo {
    /// The schedules, in the order they were given.
    pub closed spec fn schedules(&self) -> Seq<Schedule> {
        self.schedule@
    }

    /// When the schedules were last replaced, if ever.
    pub closed spec fn updated_at(&self) -> Option<i64> {
        self.last_updated
    }

    #[verifier::type_invariant]
    spec fn well_formed(&self) -> bool {
        &&& group_index_ok(self.number_to_index@, self.schedule@)
        &&& teacher_index_ok(self.isu_id_to_index@, self.schedule@)
        &&& names_ok(self.names_to_index@, self.schedule@)
    }

    /// An empty store that was never updated.
    pub fn new() -> (r: Self)
        ensures
            r.schedules() == Seq::<Schedule>::empty(),
            r.updated_at() is None,
    {
        ScheduleRepo {
            schedule: Vec::new(),
            last_updated: None,
            number_to_index: HashMap::new(),
            isu_id_to_index: HashMap::new(),
            names_to_index: Vec::new(),
        }
    }

    /// Replaces all schedules and records when that happened.
    pub fn update(&mut self, schedule: Vec<Schedule>, last_updated: i64)
        ensures
            final(self).schedules() == schedule@,
            final(self).updated_at() == Some(last_updated),
    {
        let mut number_to_index: HashMap<i32, usize> = HashMap::new();
        let mut isu_id_to_index: HashMap<i32, usize> = HashMap::new();
        let mut names_to_index: Vec<(String, usize)> = Vec::new();
        let len = schedule.len();
        let mut index: usize = 0;
        proof {
            assert(schedule@.take(0) =~= Seq::<Schedule>::empty());
        }
        while index < len
            invariant
                index <= len,
                len == schedule@.len(),
                group_index_ok(number_to_index@, schedule@.take(index as int)),
                teacher_index_ok(isu_id_to_index@, schedule@.take(index as int)),
                names_ok(names_to_index@, schedule@.take(index as int)),
            decreases len - index,
        {
            let ghost prev = schedule@.take(index as int);
            let ghost next = schedule@.take(index + 1);
            assert(next.drop_last() =~= prev);
            assert(next.last() == schedule@[index as int]);
            match &schedule[index].schedule_type {
                ScheduleVariant::Group(group) => {
                    number_to_index.insert(group.number, index);
                    assert(group_index_ok(number_to_index@, next));
                },
                ScheduleVariant::Teacher(teacher) => {
                    let name = to_lowercase(teacher.name.as_str());
                    names_to_index.push((name, index));
                    isu_id_to_index.insert(teacher.isu_id, index);
                    assert(teacher_index_ok(isu_id_to_index@, next));
                    assert(names_ok(names_to_index@, next));
                },
            }
            index = index + 1;
        }
        proof {
            assert(schedule@.take(len as int) =~= schedule@);
        }
        *self = ScheduleRepo {
            schedule,
            last_updated: Some(last_updated),
            number_to_index,
            isu_id_to_index,
            names_to_index,
        };
    }

    /// Finds schedules: by exact group number where the query is a number,
    /// else teachers whose name contains the query, ignoring case.
    pub fn search(&self, query: &str) -> (r: Vec<&Schedule>)
        ensures
            r@.len() == search_result(self.schedules(), query@).len(),
            forall|k: int|
                0 <= k < r@.len() ==> *(#[trigger] r@[k]) == search_result(self.schedules(), query@)[k],
    {
        proof {
            use_type_invariant(self);
        }
        let mut found: Vec<&Schedule> = Vec::new();
        match str_parse_i32(query) {
            Some(number) => {
                proof {
                    lemma_last_group_index(self.schedule@, number);
                }
                match self.number_to_index.get(&number) {
                    Some(index) => {
                        found.push(&self.schedule[*index]);
                    },
                    None => {},
                }
                found
            },
            None => {
                let lower = to_lowercase(query);
                let needle = chars_of(lower.as_str());
                let ghost entries = teacher_names(self.schedule@);
                proof {
                    lemma_teacher_names_bounds(self.schedule@);
                }
                let count = self.names_to_index.len();
                let mut k: usize = 0;
                while k < count
                    invariant
                        k <= count,
                        count == entries.len(),
                        entries == teacher_names(self.schedule@),
                        names_ok(self.names_to_index@, self.schedule@),
                        needle@ == lowercase(query@),
                        forall|j: int|
                            0 <= j < entries.len() ==> 0 <= #[trigger] entries[j].1
                                < self.schedule@.len(),
                        found@.len() == name_matches(
                            entries.take(k as int),
                            self.schedule@,
                            needle@,
                        ).len(),
                        forall|j: int|
                            0 <= j < found@.len() ==> *(#[trigger] found@[j]) == name_matches(
                                entries.take(k as int),
                                self.schedule@,
                                needle@,
                            )[j],
                    decreases count - k,
                {
                    let entry = &self.names_to_index[k];
                    let name = chars_of(entry.0.as_str());
                    assert(entries.take(k + 1).drop_last() =~= entries.take(k as int));
                    assert(entries.take(k + 1).last() == entries[k as int]);
                    if contains_chars(&name, &needle) {
                        found.push(&self.schedule[entry.1]);
                    }
                    k = k + 1;
                }
                assert(entries.take(count as int) =~= entries);
                found
            },
        }
    }

    /// The schedule of the teacher with this id.
    pub fn get_by_isu_id(&self, teacher_isu_id: i32) -> (r: Option<&Schedule>)
        ensures
            match last_teacher_index(self.schedules(), teacher_isu_id) {
                Some(i) => r matches Some(s) && *s == self.schedules()[i],
                None => r is None,
            },
    {
        proof {
            use_type_invariant(self);
            lemma_last_teacher_index(self.schedule@, teacher_isu_id);
        }
        match self.isu_id_to_index.get(&teacher_isu_id) {
            Some(index) => Some(&self.schedule[*index]),
            None => None,
        }
    }

    /// The schedule of the group with this number.
    pub fn get_by_group_number(&self, group_number: i32) -> (r: Option<&Schedule>)
        ensures
            match last_group_index(self.schedules(), group_number) {
                Some(i) => r matches Some(s) && *s == self.schedules()[i],
                None => r is None,
            },
    {
        proof {
            use_type_invariant(self);
            lemma_last_group_index(self.schedule@, group_number);
        }
        match self.number_to_index.get(&group_number) {
            Some(index) => Some(&self.schedule[*index]),
            None => None,
        }
    }

    /// When the schedules were last replaced.
    pub fn last_updated(&self) -> (r: Option<i64>)
        ensures
            r == self.updated_at(),
    {
        self.last_updated
    }
}

} // verus!

verus! {

/// Fills the store from the cache: only a cache with schedules and a known
/// update time replaces what the store holds.
pub fn restore_schedule_cache(
    schedule_repo: &mut ScheduleRepo,
    schedules: Vec<Schedule>,
    last_updated: Option<i64>,
)
    ensures
        match last_updated {
            Some(t) => if schedules@.len() > 0 {
                final(schedule_repo).schedules() == schedules@ && final(schedule_repo).updated_at()
                    == Some(t)
            } else {
                *final(schedule_repo) == *old(schedule_repo)
            },
            None => *final(schedule_repo) == *old(schedule_repo),
        },
{
    match last_updated {
        Some(last_updated) => {
            if schedules.len() > 0 {
                schedule_repo.update(schedules, last_updated);
            }
        },
        None => {},
    }
}

} // verus!

verus! {

/// Replacing the schedules forgets what the store held before: two stores
/// that were each just updated with the same schedules at the same time,
/// whatever they held earlier (updating twice included), answer every
/// search, lookup and update-time query alike.
pub proof fn lemma_update_forgets_history(
    a: ScheduleRepo,
    b: ScheduleRepo,
    schedules: Seq<Schedule>,
    t: i64,
    q: Seq<char>,
    n: i32,
    isu_id: i32,
)
    requires
        a.schedules() == schedules && a.updated_at() == Some(t),
        b.schedules() == schedules && b.updated_at() == Some(t),
    ensures
        search_result(a.schedules(), q) == search_result(b.schedules(), q),
        last_group_index(a.schedules(), n) == last_group_index(b.schedules(), n),
        last_group_index(a.schedules(), n) matches Some(i) ==> a.schedules()[i] == b.schedules()[i],
        last_teacher_index(a.schedules(), isu_id) == last_teacher_index(b.schedules(), isu_id),
        last_teacher_index(a.schedules(), isu_id) matches Some(i) ==> a.schedules()[i]
            == b.schedules()[i],
        a.updated_at() == b.updated_at(),
{
}

/// An empty store finds nothing: no group, no teacher, no search result.
pub proof fn lemma_empty_store_finds_nothing(n: i32, isu_id: i32, q: Seq<char>)
    ensures
        last_group_index(Seq::<Schedule>::empty(), n) is None,
        last_teacher_index(Seq::<Schedule>::empty(), isu_id) is None,
        search_result(Seq::<Schedule>::empty(), q).len() == 0,
{
    assert(teacher_names(Seq::<Schedule>::empty()).len() == 0);
}

/// A search for a number finds exactly what the group lookup finds: the last
/// schedule of that group, or nothing.
pub proof fn lemma_number_search_is_group_lookup(s: Seq<Schedule>, q: Seq<char>)
    requires
        parse_i32(q) is Some,
    ensures
        ({
            let n = parse_i32(q)->0;
            let found = search_result(s, q);
            match last_group_index(s, n) {
                Some(i) => found.len() == 1 && found[0] == s[i] && is_group_number(s[i], n),
                None => found.len() == 0,
            }
        }),
{
    lemma_last_group_index(s, parse_i32(q)->0);
}

/// Each entry of the teacher name list names a teacher schedule by its
/// lower-cased name, and every teacher schedule has an entry.
pub proof fn lemma_teacher_names_entries(s: Seq<Schedule>)
    ensures
        forall|k: int|
            0 <= k < teacher_names(s).len() ==> {
                let e = #[trigger] teacher_names(s)[k];
                &&& 0 <= e.1 < s.len()
                &&& s[e.1].schedule_type matches ScheduleVariant::Teacher(t) && e.0 == lowercase(
                    t.name@,
                )
            },
        forall|i: int|
            0 <= i < s.len() && (#[trigger] s[i]).schedule_type is Teacher ==> exists|k: int|
                0 <= k < teacher_names(s).len() && teacher_names(s)[k].1 == i,
    decreases s.len(),
{
    if s.len() > 0 {
        let p = s.drop_last();
        lemma_teacher_names_entries(p);
        let rest = teacher_names(p);
        let all = teacher_names(s);
        assert forall|k: int| 0 <= k < rest.len() implies all[k] == rest[k] by {}
        assert forall|i: int| 0 <= i < p.len() implies p[i] == #[trigger] s[i] by {}
        assert forall|i: int|
            0 <= i < s.len() && (#[trigger] s[i]).schedule_type is Teacher implies exists|k: int|
                0 <= k < all.len() && all[k].1 == i by {
            if i < s.len() - 1 {
                assert(p[i] == s[i]);
                let k = choose|k: int| 0 <= k < rest.len() && rest[k].1 == i;
                assert(all[k] == rest[k]);
            } else {
                assert(all[all.len() - 1].1 == i);
            }
        }
    }
}

/// `x` is the schedule of an entry whose name contains `q`.
pub open spec fn entry_match(entries: Seq<(Seq<char>, int)>, s: Seq<Schedule>, q: Seq<char>, x: Schedule) -> bool {
    exists|j: int|
        0 <= j < entries.len() && #[trigger] crate::text::contains_seq(entries[j].0, q) && x
            == s[entries[j].1]
}

/// The name matches are exactly the schedules of the entries whose name
/// contains the needle: each result comes from such an entry, and each such
/// entry gives a result.
pub proof fn lemma_name_matches(entries: Seq<(Seq<char>, int)>, s: Seq<Schedule>, q: Seq<char>)
    ensures
        forall|k: int|
            0 <= k < name_matches(entries, s, q).len() ==> entry_match(
                entries,
                s,
                q,
                #[trigger] name_matches(entries, s, q)[k],
            ),
        forall|j: int|
            0 <= j < entries.len() && crate::text::contains_seq(#[trigger] entries[j].0, q)
                ==> name_matches(entries, s, q).contains(s[entries[j].1]),
    decreases entries.len(),
{
    if entries.len() > 0 {
        let p = entries.drop_last();
        lemma_name_matches(p, s, q);
        let rest = name_matches(p, s, q);
        let all = name_matches(entries, s, q);
        assert forall|j: int| 0 <= j < p.len() implies p[j] == #[trigger] entries[j] by {}
        assert forall|k: int| 0 <= k < rest.len() implies all[k] == rest[k] by {}
        assert forall|k: int| 0 <= k < all.len() implies entry_match(entries, s, q, #[trigger] all[k]) by {
            if k < rest.len() {
                assert(entry_match(p, s, q, rest[k]));
                let j = choose|j: int|
                    0 <= j < p.len() && #[trigger] crate::text::contains_seq(p[j].0, q) && rest[k]
                        == s[p[j].1];
                assert(entries[j] == p[j]);
                assert(crate::text::contains_seq(entries[j].0, q) && all[k] == s[entries[j].1]);
            } else {
                let j = entries.len() - 1;
                assert(entries[j] == entries.last());
                assert(crate::text::contains_seq(entries[j].0, q) && all[k] == s[entries[j].1]);
            }
        }
        assert forall|j: int|
            0 <= j < entries.len() && crate::text::contains_seq(
                #[trigger] entries[j].0,
                q,
            ) implies all.contains(s[entries[j].1]) by {
            if j < p.len() {
                assert(p[j] == entries[j]);
                let k = choose|k: int| 0 <= k < rest.len() && rest[k] == s[p[j].1];
                assert(all[k] == rest[k]);
            } else {
                assert(entries[j] == entries.last());
                assert(all[all.len() - 1] == s[entries[j].1]);
            }
        }
    }
}

/// `s` is the schedule of a teacher whose lower-cased name contains the
/// lower-cased query `q`.
pub open spec fn teacher_name_matches(s: Schedule, q: Seq<char>) -> bool {
    s.schedule_type matches ScheduleVariant::Teacher(t) && crate::text::contains_seq(
        lowercase(t.name@),
        lowercase(q),
    )
}

/// `x` is one of the schedules in `s` of a teacher whose lower-cased name
/// contains the lower-cased query `q`.
pub open spec fn is_matching_teacher(s: Seq<Schedule>, q: Seq<char>, x: Schedule) -> bool {
    exists|i: int| 0 <= i < s.len() && #[trigger] s[i] == x && teacher_name_matches(x, q)
}

/// A search for a query that is not a number finds teachers only: each
/// result is a teacher whose lower-cased name contains the lower-cased query,
/// and every such teacher is found.
pub proof fn lemma_name_search(s: Seq<Schedule>, q: Seq<char>)
    requires
        parse_i32(q) is None,
    ensures
        forall|k: int|
            0 <= k < search_result(s, q).len() ==> is_matching_teacher(
                s,
                q,
                #[trigger] search_result(s, q)[k],
            ),
        forall|i: int|
            0 <= i < s.len() && teacher_name_matches(#[trigger] s[i], q) ==> search_result(
                s,
                q,
            ).contains(s[i]),
{
    let entries = teacher_names(s);
    lemma_teacher_names_entries(s);
    lemma_name_matches(entries, s, lowercase(q));
    let found = search_result(s, q);
    assert forall|k: int| 0 <= k < found.len() implies is_matching_teacher(s, q, #[trigger] found[k]) by {
        assert(entry_match(entries, s, lowercase(q), found[k]));
        let j = choose|j: int|
            0 <= j < entries.len() && #[trigger] crate::text::contains_seq(
                entries[j].0,
                lowercase(q),
            ) && found[k] == s[entries[j].1];
        let e = entries[j];
        assert(0 <= e.1 < s.len());
        assert(s[e.1] == found[k] && teacher_name_matches(found[k], q));
    }
    assert forall|i: int| 0 <= i < s.len() && teacher_name_matches(#[trigger] s[i], q) implies found.contains(
        s[i],
    ) by {
        let k = choose|k: int| 0 <= k < entries.len() && entries[k].1 == i;
        let e = entries[k];
        assert(e.1 == i);
        assert(crate::text::contains_seq(entries[k].0, lowercase(q)));
    }
}


/// Name matches read schedules only at the entries' indices, so a longer
/// list of schedules with the same prefix gives the same matches.
proof fn lemma_name_matches_prefix(entries: Seq<(Seq<char>, int)>, p: Seq<Schedule>, s: Seq<Schedule>, q: Seq<char>)
    requires
        p.len() <= s.len(),
        forall|k: int| 0 <= k < p.len() ==> #[trigger] p[k] == s[k],
        forall|k: int| 0 <= k < entries.len() ==> 0 <= #[trigger] entries[k].1 < p.len(),
    ensures
        name_matches(entries, s, q) == name_matches(entries, p, q),
    decreases entries.len(),
{
    if entries.len() > 0 {
        let d = entries.drop_last();
        assert forall|k: int| 0 <= k < d.len() implies 0 <= #[trigger] d[k].1 < p.len() by {
            assert(d[k] == entries[k]);
        }
        lemma_name_matches_prefix(d, p, s, q);
        assert(0 <= entries.last().1 < p.len());
    }
}

/// A search for a query that is not a number gives every teacher whose
/// lower-cased name contains the lower-cased query, each once and in the
/// order of the schedules, and nothing else: the schedules filtered by that
/// test.
pub proof fn lemma_name_search_is_filter(s: Seq<Schedule>, q: Seq<char>)
    requires
        parse_i32(q) is None,
    ensures
        search_result(s, q) == s.filter(|x: Schedule| teacher_name_matches(x, q)),
    decreases s.len(),
{
    let pred = |x: Schedule| teacher_name_matches(x, q);
    reveal(Seq::filter);
    if s.len() == 0 {
        assert(search_result(s, q) =~= s.filter(pred));
    } else {
        let p = s.drop_last();
        lemma_name_search_is_filter(p, q);
        lemma_teacher_names_bounds(p);
        assert forall|k: int| 0 <= k < p.len() implies #[trigger] p[k] == s[k] by {}
        lemma_name_matches_prefix(teacher_names(p), p, s, lowercase(q));
        match s.last().schedule_type {
            ScheduleVariant::Teacher(t) => {
                let e = (lowercase(t.name@), s.len() - 1);
                assert(teacher_names(s) == teacher_names(p).push(e));
                assert(teacher_names(s).drop_last() =~= teacher_names(p));
                assert(teacher_names(s).last() == e);
            },
            ScheduleVariant::Group(_) => {
                assert(teacher_names(s) == teacher_names(p));
            },
        }
        assert(s.filter(pred) == (if pred(s.last()) {
            p.filter(pred).push(s.last())
        } else {
            p.filter(pred)
        }));
        assert(name_matches(teacher_names(s), s, lowercase(q)) == (if pred(s.last()) {
            name_matches(teacher_names(p), p, lowercase(q)).push(s.last())
        } else {
            name_matches(teacher_names(p), p, lowercase(q))
        }));
        assert(search_result(s, q) =~= s.filter(pred));
    }
}

} // verus!
