//! Which of the enum's type and lifetime parameters the fields of a variant
//! use. The ones a variant does not use go into a `PhantomData` field of its
//! struct.

use vstd::prelude::*;

use crate::tokens::text_eq;

verus! {

/// A type path met while walking a field's type.
pub struct TypePathRef {
    /// It has a qualified self (`<T as Trait>::Item`).
    pub qualified: bool,
    /// The identifier, when the path is one plain identifier (no leading
    /// `::`, one segment, no generic arguments).
    pub plain_ident: Option<String>,
}

/// Everything a field's type mentions that can name a generic parameter:
/// every type path and every lifetime met while walking the type.
pub struct TypeRefs {
    pub paths: Vec<TypePathRef>,
    pub lifetimes: Vec<String>,
}

/// The mathematical value of [`TypePathRef`].
pub struct TypePathRefV {
    pub qualified: bool,
    pub plain_ident: Option<Seq<char>>,
}

/// The mathematical value of [`TypeRefs`].
pub struct TypeRefsV {
    pub paths: Seq<TypePathRefV>,
    pub lifetimes: Seq<Seq<char>>,
}

impl View for TypePathRef {
    type V = TypePathRefV;

    open spec fn view(&self) -> TypePathRefV {
        TypePathRefV {
            qualified: self.qualified,
            plain_ident: match self.plain_ident {
                Some(s) => Some(s@),
                None => None,
            },
        }
    }
}

impl View for TypeRefs {
    type V = TypeRefsV;

    open spec fn view(&self) -> TypeRefsV {
        TypeRefsV {
            paths: self.paths@.map_values(|p: TypePathRef| p@),
            lifetimes: self.lifetimes@.map_values(|s: String| s@),
        }
    }
}

/// The values of a list of strings.
pub open spec fn strings_view(v: Seq<String>) -> Seq<Seq<char>> {
    v.map_values(|s: String| s@)
}

/// The path names the type parameter `name`: it is unqualified and is that
/// one plain identifier.
pub open spec fn path_names(p: TypePathRefV, name: Seq<char>) -> bool {
    !p.qualified && p.plain_ident == Some(name)
}

/// Some type in `tys` names the type parameter `name`.
pub open spec fn mentions_type(tys: Seq<TypeRefsV>, name: Seq<char>) -> bool {
    exists|i: int, j: int|
        0 <= i < tys.len() && 0 <= j < tys[i].paths.len() && #[trigger] path_names(
            tys[i].paths[j],
            name,
        )
}

/// Some type in `tys` mentions the lifetime `name`.
pub open spec fn mentions_lifetime(tys: Seq<TypeRefsV>, name: Seq<char>) -> bool {
    exists|i: int, j: int|
        0 <= i < tys.len() && 0 <= j < tys[i].lifetimes.len() && #[trigger] tys[i].lifetimes[j]
            == name
}

/// The names in `names` that `used` does not hold, in order.
pub open spec fn unused_names(names: Seq<Seq<char>>, used: spec_fn(Seq<char>) -> bool) -> Seq<
    Seq<char>,
>
    decreases names.len(),
{
    if names.len() == 0 {
        seq![]
    } else {
        let rest = unused_names(names.drop_last(), used);
        if used(names.last()) {
            rest
        } else {
            rest.push(names.last())
        }
    }
}

/// The predicate "some type in `tys` names the type parameter".
pub open spec fn type_use(tys: Seq<TypeRefsV>) -> spec_fn(Seq<char>) -> bool {
    |n: Seq<char>| mentions_type(tys, n)
}

/// The predicate "some type in `tys` mentions the lifetime".
pub open spec fn lifetime_use(tys: Seq<TypeRefsV>) -> spec_fn(Seq<char>) -> bool {
    |n: Seq<char>| mentions_lifetime(tys, n)
}

/// Mentions in the first `i + 1` types are those in the first `i` and those
/// in type `i`.
pub proof fn lemma_mentions_extend(tys: Seq<TypeRefsV>, i: int)
    requires
        0 <= i < tys.len(),
    ensures
        forall|n: Seq<char>|
            #![trigger mentions_type(tys.take(i + 1), n)]
            mentions_type(tys.take(i + 1), n) <==> (mentions_type(tys.take(i), n)
                || mentions_type(seq![tys[i]], n)),
        forall|n: Seq<char>|
            #![trigger mentions_lifetime(tys.take(i + 1), n)]
            mentions_lifetime(tys.take(i + 1), n) <==> (mentions_lifetime(tys.take(i), n)
                || mentions_lifetime(seq![tys[i]], n)),
{
    let a = tys.take(i + 1);
    let b = tys.take(i);
    let c = seq![tys[i]];
    assert forall|n: Seq<char>|
        mentions_type(a, n) <==> (mentions_type(b, n) || mentions_type(c, n)) by {
        if mentions_type(a, n) {
            let (x, y) = choose|x: int, y: int|
                0 <= x < a.len() && 0 <= y < a[x].paths.len() && #[trigger] path_names(a[x].paths[y], n);
            if x < i {
                assert(path_names(b[x].paths[y], n));
            } else {
                assert(path_names(c[0].paths[y], n));
            }
        }
        if mentions_type(b, n) {
            let (x, y) = choose|x: int, y: int|
                0 <= x < b.len() && 0 <= y < b[x].paths.len() && #[trigger] path_names(b[x].paths[y], n);
            assert(path_names(a[x].paths[y], n));
        }
        if mentions_type(c, n) {
            let (x, y) = choose|x: int, y: int|
                0 <= x < c.len() && 0 <= y < c[x].paths.len() && #[trigger] path_names(c[x].paths[y], n);
            assert(path_names(a[i].paths[y], n));
        }
    }
    assert forall|n: Seq<char>|
        mentions_lifetime(a, n) <==> (mentions_lifetime(b, n) || mentions_lifetime(c, n)) by {
        if mentions_lifetime(a, n) {
            let (x, y) = choose|x: int, y: int|
                0 <= x < a.len() && 0 <= y < a[x].lifetimes.len() && #[trigger] a[x].lifetimes[y] == n;
            if x < i {
                assert(b[x].lifetimes[y] == n);
            } else {
                assert(c[0].lifetimes[y] == n);
            }
        }
        if mentions_lifetime(b, n) {
            let (x, y) = choose|x: int, y: int|
                0 <= x < b.len() && 0 <= y < b[x].lifetimes.len() && #[trigger] b[x].lifetimes[y] == n;
            assert(a[x].lifetimes[y] == n);
        }
        if mentions_lifetime(c, n) {
            let (x, y) = choose|x: int, y: int|
                0 <= x < c.len() && 0 <= y < c[x].lifetimes.len() && #[trigger] c[x].lifetimes[y] == n;
            assert(a[i].lifetimes[y] == n);
        }
    }
}

/// The state of a [`GenericsUsageCollector`]: the names looked for and the
/// names met so far.
pub struct UsageState {
    pub type_names: Set<Seq<char>>,
    pub lifetime_names: Set<Seq<char>>,
    pub used_types: Set<Seq<char>>,
    pub used_lifetimes: Set<Seq<char>>,
}

/// A call made on a [`GenericsUsageCollector`].
pub enum UsageEvent {
    /// `visit_type_path`
    TypePath(TypePathRefV),
    /// `visit_lifetime`
    Lifetime(Seq<char>),
    /// `visit_type`
    Type(TypeRefsV),
}

/// The state of a new collector.
pub open spec fn usage_start(type_names: Seq<Seq<char>>, lifetime_names: Seq<Seq<char>>) -> UsageState {
    UsageState {
        type_names: type_names.to_set(),
        lifetime_names: lifetime_names.to_set(),
        used_types: Set::empty(),
        used_lifetimes: Set::empty(),
    }
}

/// The state after one call: a type path that is one plain identifier naming
/// a type parameter, a lifetime that is a lifetime parameter, and the
/// parameters that a type mentions count as used.
pub open spec fn usage_step(s: UsageState, e: UsageEvent) -> UsageState {
    match e {
        UsageEvent::TypePath(p) => UsageState {
            type_names: s.type_names,
            lifetime_names: s.lifetime_names,
            used_types: match p.plain_ident {
                Some(name) => if !p.qualified && s.type_names.contains(name) {
                    s.used_types.insert(name)
                } else {
                    s.used_types
                },
                None => s.used_types,
            },
            used_lifetimes: s.used_lifetimes,
        },
        UsageEvent::Lifetime(l) => UsageState {
            type_names: s.type_names,
            lifetime_names: s.lifetime_names,
            used_types: s.used_types,
            used_lifetimes: if s.lifetime_names.contains(l) {
                s.used_lifetimes.insert(l)
            } else {
                s.used_lifetimes
            },
        },
        UsageEvent::Type(t) => UsageState {
            type_names: s.type_names,
            lifetime_names: s.lifetime_names,
            used_types: s.used_types.union(
                Set::new(|n: Seq<char>| s.type_names.contains(n) && mentions_type(seq![t], n)),
            ),
            used_lifetimes: s.used_lifetimes.union(
                Set::new(|n: Seq<char>| s.lifetime_names.contains(n) && mentions_lifetime(seq![t], n)),
            ),
        },
    }
}

/// The state after the calls `evs`, in order, from `s`.
pub open spec fn usage_run(s: UsageState, evs: Seq<UsageEvent>) -> UsageState
    decreases evs.len(),
{
    if evs.len() == 0 {
        s
    } else {
        usage_step(usage_run(s, evs.drop_last()), evs.last())
    }
}

/// Records which of the given type and lifetime parameter names the visited
/// types use.
pub struct GenericsUsageCollector<'a> {
    type_names: &'a [String],
    lifetime_names: &'a [String],
    pub used_types: Vec<String>,
    pub used_lifetimes: Vec<String>,
}

impl<'a> GenericsUsageCollector<'a> {
    /// The type parameter names looked for.
    pub closed spec fn type_name_set(&self) -> Set<Seq<char>> {
        strings_view(self.type_names@).to_set()
    }

    /// The lifetime parameter names looked for.
    pub closed spec fn lifetime_name_set(&self) -> Set<Seq<char>> {
        strings_view(self.lifetime_names@).to_set()
    }

    /// The type parameter names met so far.
    pub closed spec fn used_type_set(&self) -> Set<Seq<char>> {
        strings_view(self.used_types@).to_set()
    }

    /// The lifetime parameter names met so far.
    pub closed spec fn used_lifetime_set(&self) -> Set<Seq<char>> {
        strings_view(self.used_lifetimes@).to_set()
    }

    /// The collector's state as sets of names.
    pub closed spec fn usage_state(&self) -> UsageState {
        UsageState {
            type_names: self.type_name_set(),
            lifetime_names: self.lifetime_name_set(),
            used_types: self.used_type_set(),
            used_lifetimes: self.used_lifetime_set(),
        }
    }

    /// Every name met so far is one of the names looked for.
    pub open spec fn usage_within_names(&self) -> bool {
        &&& self.used_type_set().subset_of(self.type_name_set())
        &&& self.used_lifetime_set().subset_of(self.lifetime_name_set())
    }

    /// A collector that has met nothing yet.
    pub fn new(type_names: &'a [String], lifetime_names: &'a [String]) -> (r: Self)
        ensures
            r.type_name_set() == strings_view(type_names@).to_set(),
            r.lifetime_name_set() == strings_view(lifetime_names@).to_set(),
            r.used_type_set() == Set::<Seq<char>>::empty(),
            r.used_lifetime_set() == Set::<Seq<char>>::empty(),
            r.usage_within_names(),
            r.usage_state() == usage_start(strings_view(type_names@), strings_view(lifetime_names@)),
    {
        let r = Self {
            type_names,
            lifetime_names,
            used_types: Vec::new(),
            used_lifetimes: Vec::new(),
        };
        proof {
            assert(strings_view(r.used_types@).to_set() =~= Set::<Seq<char>>::empty());
            assert(strings_view(r.used_lifetimes@).to_set() =~= Set::<Seq<char>>::empty());
        }
        r
    }

    /// Meets a type path: if it names one of the type parameters, that name
    /// counts as used.
    pub fn visit_type_path(&mut self, type_path: &TypePathRef)
        ensures
            final(self).usage_state() == usage_step(
                old(self).usage_state(),
                UsageEvent::TypePath(type_path@),
            ),
            old(self).usage_within_names() ==> final(self).usage_within_names(),
            old(self).used_type_set().subset_of(final(self).used_type_set()),
            old(self).used_lifetime_set().subset_of(final(self).used_lifetime_set()),
            final(self).type_name_set() == old(self).type_name_set(),
            final(self).lifetime_name_set() == old(self).lifetime_name_set(),
            final(self).used_lifetime_set() == old(self).used_lifetime_set(),
            final(self).used_type_set() == (match type_path@.plain_ident {
                Some(name) => if !type_path@.qualified && old(self).type_name_set().contains(
                    name,
                ) {
                    old(self).used_type_set().insert(name)
                } else {
                    old(self).used_type_set()
                },
                None => old(self).used_type_set(),
            }),
    {
        if !type_path.qualified {
            if let Some(ident) = &type_path.plain_ident {
                if contains_name(self.type_names, ident) {
                    insert_name(&mut self.used_types, ident);
                }
            }
        }
    }

    /// Meets a lifetime: if it is one of the lifetime parameters, that name
    /// counts as used.
    pub fn visit_lifetime(&mut self, lifetime: &String)
        ensures
            final(self).usage_state() == usage_step(
                old(self).usage_state(),
                UsageEvent::Lifetime(lifetime@),
            ),
            old(self).usage_within_names() ==> final(self).usage_within_names(),
            old(self).used_type_set().subset_of(final(self).used_type_set()),
            old(self).used_lifetime_set().subset_of(final(self).used_lifetime_set()),
            final(self).type_name_set() == old(self).type_name_set(),
            final(self).lifetime_name_set() == old(self).lifetime_name_set(),
            final(self).used_type_set() == old(self).used_type_set(),
            final(self).used_lifetime_set() == if old(self).lifetime_name_set().contains(
                lifetime@,
            ) {
                old(self).used_lifetime_set().insert(lifetime@)
            } else {
                old(self).used_lifetime_set()
            },
    {
        if contains_name(self.lifetime_names, lifetime) {
            insert_name(&mut self.used_lifetimes, lifetime);
        }
    }
}

impl<'a> GenericsUsageCollector<'a> {
    /// Meets every type path and lifetime that `ty` mentions.
    pub fn visit_type(&mut self, ty: &TypeRefs)
        ensures
            final(self).usage_state() == usage_step(old(self).usage_state(), UsageEvent::Type(ty@)),
            old(self).usage_within_names() ==> final(self).usage_within_names(),
            old(self).used_type_set().subset_of(final(self).used_type_set()),
            old(self).used_lifetime_set().subset_of(final(self).used_lifetime_set()),
            final(self).type_name_set() == old(self).type_name_set(),
            final(self).lifetime_name_set() == old(self).lifetime_name_set(),
            final(self).used_type_set() == old(self).used_type_set().union(
                Set::new(
                    |n: Seq<char>| old(self).type_name_set().contains(n) && mentions_type(seq![ty@], n),
                ),
            ),
            final(self).used_lifetime_set() == old(self).used_lifetime_set().union(
                Set::new(
                    |n: Seq<char>|
                        old(self).lifetime_name_set().contains(n) && mentions_lifetime(
                            seq![ty@],
                            n,
                        ),
                ),
            ),
    {
        let ghost tys = seq![ty@];
        let ghost types0 = self.used_type_set();
        let ghost lts0 = self.used_lifetime_set();
        let ghost tnames = self.type_name_set();
        let ghost lnames = self.lifetime_name_set();
        let mut j: usize = 0;
        while j < ty.paths.len()
            invariant
                j <= ty.paths@.len(),
                tys == seq![ty@],
                self.type_name_set() == tnames,
                self.lifetime_name_set() == lnames,
                self.used_lifetime_set() == lts0,
                self.used_type_set() == types0.union(
                    Set::new(
                        |n: Seq<char>|
                            tnames.contains(n) && exists|k: int|
                                0 <= k < j && #[trigger] path_names(tys[0].paths[k], n),
                    ),
                ),
            decreases ty.paths@.len() - j,
        {
            let ghost before = self.used_type_set();
            self.visit_type_path(&ty.paths[j]);
            proof {
                assert(tys[0].paths[j as int] == ty.paths@[j as int]@);
                let next = Set::new(
                    |n: Seq<char>|
                        tnames.contains(n) && exists|k: int|
                            0 <= k < j + 1 && #[trigger] path_names(tys[0].paths[k], n),
                );
                assert forall|n: Seq<char>| #[trigger]
                    self.used_type_set().contains(n) <==> types0.union(next).contains(n) by {
                    if tnames.contains(n) && path_names(tys[0].paths[j as int], n) {
                        assert(next.contains(n));
                    }
                    if next.contains(n) && !before.contains(n) {
                        let k = choose|k: int| 0 <= k < j + 1 && #[trigger] path_names(tys[0].paths[k], n);
                        assert(k == j);
                    }
                }
                assert(self.used_type_set() =~= types0.union(next));
            }
            j += 1;
        }
        proof {
            assert forall|n: Seq<char>|
                (exists|k: int| 0 <= k < ty.paths@.len() && #[trigger] path_names(tys[0].paths[k], n))
                    <==> mentions_type(tys, n) by {
                if mentions_type(tys, n) {
                    let (i, k) = choose|i: int, k: int|
                        0 <= i < tys.len() && 0 <= k < tys[i].paths.len() && #[trigger] path_names(
                            tys[i].paths[k],
                            n,
                        );
                    assert(i == 0);
                }
                if exists|k: int| 0 <= k < ty.paths@.len() && #[trigger] path_names(tys[0].paths[k], n) {
                    let k = choose|k: int| 0 <= k < ty.paths@.len() && #[trigger] path_names(tys[0].paths[k], n);
                    assert(path_names(tys[0].paths[k], n));
                }
            }
            assert(self.used_type_set() =~= types0.union(
                Set::new(|n: Seq<char>| tnames.contains(n) && mentions_type(tys, n)),
            ));
        }
        let mut j: usize = 0;
        while j < ty.lifetimes.len()
            invariant
                j <= ty.lifetimes@.len(),
                tys == seq![ty@],
                self.type_name_set() == tnames,
                self.lifetime_name_set() == lnames,
                self.used_type_set() == types0.union(
                    Set::new(|n: Seq<char>| tnames.contains(n) && mentions_type(tys, n)),
                ),
                self.used_lifetime_set() == lts0.union(
                    Set::new(
                        |n: Seq<char>|
                            lnames.contains(n) && exists|k: int|
                                0 <= k < j && #[trigger] tys[0].lifetimes[k] == n,
                    ),
                ),
            decreases ty.lifetimes@.len() - j,
        {
            let ghost before = self.used_lifetime_set();
            self.visit_lifetime(&ty.lifetimes[j]);
            proof {
                assert(tys[0].lifetimes[j as int] == ty.lifetimes@[j as int]@);
                let next = Set::new(
                    |n: Seq<char>|
                        lnames.contains(n) && exists|k: int|
                            0 <= k < j + 1 && #[trigger] tys[0].lifetimes[k] == n,
                );
                assert forall|n: Seq<char>| #[trigger]
                    self.used_lifetime_set().contains(n) <==> lts0.union(next).contains(n) by {
                    if lnames.contains(n) && tys[0].lifetimes[j as int] == n {
                        assert(next.contains(n));
                    }
                    if next.contains(n) && !before.contains(n) {
                        let k = choose|k: int| 0 <= k < j + 1 && #[trigger] tys[0].lifetimes[k] == n;
                        assert(k == j);
                    }
                }
                assert(self.used_lifetime_set() =~= lts0.union(next));
            }
            j += 1;
        }
        proof {
            assert forall|n: Seq<char>|
                (exists|k: int| 0 <= k < ty.lifetimes@.len() && #[trigger] tys[0].lifetimes[k] == n)
                    <==> mentions_lifetime(tys, n) by {
                if mentions_lifetime(tys, n) {
                    let (i, k) = choose|i: int, k: int|
                        0 <= i < tys.len() && 0 <= k < tys[i].lifetimes.len() && #[trigger] tys[i].lifetimes[k]
                            == n;
                    assert(i == 0);
                }
            }
            assert(self.used_lifetime_set() =~= lts0.union(
                Set::new(|n: Seq<char>| lnames.contains(n) && mentions_lifetime(tys, n)),
            ));
        }
    }

    /// Whether the type parameter `name` has been met.
    pub fn is_type_used(&self, name: &String) -> (r: bool)
        ensures
            r == self.used_type_set().contains(name@),
    {
        contains_name(self.used_types.as_slice(), name)
    }

    /// Whether the lifetime parameter `name` has been met.
    pub fn is_lifetime_used(&self, name: &String) -> (r: bool)
        ensures
            r == self.used_lifetime_set().contains(name@),
    {
        contains_name(self.used_lifetimes.as_slice(), name)
    }
}

/// Whether `names` holds `name`.
fn contains_name(names: &[String], name: &String) -> (r: bool)
    ensures
        r == strings_view(names@).to_set().contains(name@),
{
    let mut i: usize = 0;
    while i < names.len()
        invariant
            i <= names@.len(),
            forall|j: int| 0 <= j < i ==> names@[j]@ != name@,
        decreases names@.len() - i,
    {
        if names[i] == *name {
            proof {
                assert(strings_view(names@)[i as int] == name@);
            }
            return true;
        }
        i += 1;
    }
    proof {
        if strings_view(names@).to_set().contains(name@) {
            let j = choose|j: int| 0 <= j < strings_view(names@).len() && strings_view(names@)[j] == name@;
            assert(names@[j]@ == name@);
        }
    }
    false
}

/// Adds `name` to the set that `names` holds.
fn insert_name(names: &mut Vec<String>, name: &String)
    ensures
        strings_view(final(names)@).to_set() == strings_view(old(names)@).to_set().insert(name@),
{
    let ghost before = strings_view(names@);
    if !contains_name(names.as_slice(), name) {
        names.push(name.clone());
        proof {
            let after = strings_view(names@);
            assert(after =~= before.push(name@));
            assert forall|x: Seq<char>| #[trigger]
                after.to_set().contains(x) <==> before.to_set().insert(name@).contains(x) by {
                if after.contains(x) {
                    let j = choose|j: int| 0 <= j < after.len() && after[j] == x;
                    if j < before.len() {
                        assert(before[j] == x);
                    }
                }
                if before.contains(x) {
                    let j = choose|j: int| 0 <= j < before.len() && before[j] == x;
                    assert(after[j] == x);
                }
                if x == name@ {
                    assert(after[before.len() as int] == x);
                }
            }
            assert(after.to_set() =~= before.to_set().insert(name@));
        }
    } else {
        proof {
            assert(before.to_set().insert(name@) =~= before.to_set());
        }
    }
}

} // verus!
