//! Named groups of asset handles and their readiness.
//!
//! A group is registered once, under a unique name, for the phase whose
//! loading it gates. Its membership never changes afterwards; only the status
//! of its handles does, as the loading capability reports them.
use vstd::prelude::*;

use crate::coordinator::LoadSignal;
use crate::game_state::GameState;

verus! {

/// Where one handle stands.
#[derive(Clone, Copy, Debug, PartialEq, Eq, Structural)]
pub enum HandleStatus {
    Pending,
    Resolved,
    Failed,
}

/// Why a call on the asset gate was refused.
#[derive(Clone, Copy, Debug, PartialEq, Eq, Structural)]
pub enum GateError {
    /// A group of that name is registered already.
    DuplicateGroup,
    /// No group of that name is registered.
    UnknownGroup,
    /// The group has no handle of that index.
    UnknownHandle,
}

/// A group as a plain value.
pub struct GroupView {
    pub name: Seq<char>,
    pub scope: GameState,
    pub handles: Seq<HandleStatus>,
}

/// All members resolved.
pub open spec fn group_ready(g: GroupView) -> bool {
    forall|i: int| 0 <= i < g.handles.len() ==> g.handles[i] == HandleStatus::Resolved
}

/// How many of the handles are resolved.
pub open spec fn resolved_count(handles: Seq<HandleStatus>) -> nat
    decreases handles.len(),
{
    if handles.len() == 0 {
        0
    } else {
        resolved_count(handles.drop_last()) + if handles.last() == HandleStatus::Resolved {
            1nat
        } else {
            0nat
        }
    }
}

/// Some member failed.
pub open spec fn group_failed(g: GroupView) -> bool {
    exists|i: int| 0 <= i < g.handles.len() && g.handles[i] == HandleStatus::Failed
}

/// Some group carries `name`.
pub open spec fn has_group(groups: Seq<GroupView>, name: Seq<char>) -> bool {
    exists|k: int| 0 <= k < groups.len() && groups[k].name == name
}

/// The group called `name` exists and has a handle of index `handle`.
pub open spec fn has_handle(groups: Seq<GroupView>, name: Seq<char>, handle: int) -> bool {
    exists|k: int|
        0 <= k < groups.len() && groups[k].name == name && 0 <= handle < groups[k].handles.len()
}

/// A group of that name exists and is ready.
pub open spec fn named_ready(groups: Seq<GroupView>, name: Seq<char>) -> bool {
    exists|k: int| 0 <= k < groups.len() && groups[k].name == name && group_ready(groups[k])
}

/// Every group registered for `scope` is ready.
pub open spec fn scope_ready(groups: Seq<GroupView>, scope: GameState) -> bool {
    forall|k: int| 0 <= k < groups.len() && groups[k].scope == scope ==> group_ready(groups[k])
}

/// Some group registered for `scope` has a failed member.
pub open spec fn scope_failed(groups: Seq<GroupView>, scope: GameState) -> bool {
    exists|k: int| 0 <= k < groups.len() && groups[k].scope == scope && group_failed(groups[k])
}

/// The signal the groups give for `scope`: a failure outweighs readiness.
pub open spec fn signal_for(groups: Seq<GroupView>, scope: GameState) -> LoadSignal {
    if scope_failed(groups, scope) {
        LoadSignal::Failed
    } else if scope_ready(groups, scope) {
        LoadSignal::Ready
    } else {
        LoadSignal::Pending
    }
}

/// No two groups share a name.
pub open spec fn names_unique(groups: Seq<GroupView>) -> bool {
    forall|i: int, j: int|
        0 <= i < groups.len() && 0 <= j < groups.len() && groups[i].name == groups[j].name ==> i
            == j
}

/// `after` has the groups of `before`, member for member, and every handle
/// that was resolved in `before` is resolved in `after`.
pub open spec fn resolves_into(before: Seq<GroupView>, after: Seq<GroupView>) -> bool {
    &&& after.len() == before.len()
    &&& forall|k: int|
        0 <= k < before.len() ==> {
            &&& (#[trigger] after[k]).name == before[k].name
            &&& after[k].scope == before[k].scope
            &&& after[k].handles.len() == before[k].handles.len()
            &&& forall|i: int|
                0 <= i < before[k].handles.len() && before[k].handles[i] == HandleStatus::Resolved
                    ==> after[k].handles[i] == HandleStatus::Resolved
        }
}

/// A named set of handles that gates the loading of one phase.
pub struct AssetGroup {
    name: String,
    scope: GameState,
    handles: Vec<HandleStatus>,
}

impl View for AssetGroup {
    type V = GroupView;

    closed spec fn view(&self) -> GroupView {
        GroupView { name: self.name@, scope: self.scope, handles: self.handles@ }
    }
}

impl AssetGroup {
    /// The name the group is registered under.
    pub fn name(&self) -> (r: &str)
        ensures
            r@ == self@.name,
    {
        self.name.as_str()
    }

    /// The phase whose loading this group gates.
    pub fn scope(&self) -> (r: GameState)
        ensures
            r == self@.scope,
    {
        self.scope
    }

    /// The number of handles the group requires.
    pub fn required(&self) -> (r: usize)
        ensures
            r == self@.handles.len(),
    {
        self.handles.len()
    }

    /// The number of handles that are resolved.
    pub fn resolved(&self) -> (r: usize)
        ensures
            r == resolved_count(self@.handles),
            r <= self@.handles.len(),
    {
        let mut count: usize = 0;
        let mut i: usize = 0;
        while i < self.handles.len()
            invariant
                i <= self.handles.len(),
                count <= i,
                count == resolved_count(self.handles@.take(i as int)),
            decreases self.handles.len() - i,
        {
            assert(self.handles@.take(i + 1).drop_last() =~= self.handles@.take(i as int));
            if self.handles[i] == HandleStatus::Resolved {
                count += 1;
            }
            i += 1;
        }
        assert(self.handles@.take(i as int) =~= self.handles@);
        count
    }

    /// Whether every member is resolved.
    pub fn ready(&self) -> (r: bool)
        ensures
            r == group_ready(self@),
    {
        let mut i: usize = 0;
        while i < self.handles.len()
            invariant
                i <= self.handles.len(),
                forall|j: int| 0 <= j < i ==> self.handles@[j] == HandleStatus::Resolved,
            decreases self.handles.len() - i,
        {
            if self.handles[i] != HandleStatus::Resolved {
                return false;
            }
            i += 1;
        }
        true
    }

    /// Whether some member failed.
    pub fn failed(&self) -> (r: bool)
        ensures
            r == group_failed(self@),
    {
        let mut i: usize = 0;
        while i < self.handles.len()
            invariant
                i <= self.handles.len(),
                forall|j: int| 0 <= j < i ==> self.handles@[j] != HandleStatus::Failed,
            decreases self.handles.len() - i,
        {
            if self.handles[i] == HandleStatus::Failed {
                return true;
            }
            i += 1;
        }
        false
    }
}

/// The registry of asset groups.
pub struct AssetGate {
    groups: Vec<AssetGroup>,
}

impl View for AssetGate {
    type V = Seq<GroupView>;

    closed spec fn view(&self) -> Seq<GroupView> {
        self.groups@.map_values(|g: AssetGroup| g@)
    }
}

impl AssetGate {
    /// Group names are unique.
    pub open spec fn wf(&self) -> bool {
        names_unique(self@)
    }

    /// The signal given for `scope`.
    pub open spec fn spec_signal(&self, scope: GameState) -> LoadSignal {
        signal_for(self@, scope)
    }

    /// A gate without groups: every scope is ready.
    pub fn new() -> (r: Self)
        ensures
            r.wf(),
            r@ == Seq::<GroupView>::empty(),
    {
        let r = AssetGate { groups: Vec::new() };
        assert(r@ =~= Seq::<GroupView>::empty());
        r
    }

    /// The number of registered groups.
    pub fn len(&self) -> (r: usize)
        ensures
            r == self@.len(),
    {
        self.groups.len()
    }

    /// The group at position `k`.
    pub fn group(&self, k: usize) -> (r: Option<&AssetGroup>)
        ensures
            match r {
                Some(g) => k < self@.len() && g@ == self@[k as int],
                None => k >= self@.len(),
            },
    {
        if k < self.groups.len() {
            Some(&self.groups[k])
        } else {
            None
        }
    }

    /// The position of the group called `name`.
    pub fn index_of(&self, name: &str) -> (r: Option<usize>)
        ensures
            match r {
                Some(k) => k < self@.len() && self@[k as int].name == name@,
                None => !has_group(self@, name@),
            },
    {
        let wanted = name.to_owned();
        let mut k: usize = 0;
        while k < self.groups.len()
            invariant
                k <= self.groups.len(),
                wanted@ == name@,
                forall|j: int| 0 <= j < k ==> self@[j].name != name@,
            decreases self.groups.len() - k,
        {
            if self.groups[k].name == wanted {
                return Some(k);
            }
            k += 1;
        }
        None
    }

    /// Registers a group of `required` pending handles for `scope`, and gives
    /// its position. A name that is taken is refused and nothing changes.
    pub fn register(&mut self, name: &str, scope: GameState, required: usize) -> (r: Result<
        usize,
        GateError,
    >)
        requires
            old(self).wf(),
        ensures
            final(self).wf(),
            match r {
                Ok(k) => {
                    &&& !has_group(old(self)@, name@)
                    &&& k == old(self)@.len()
                    &&& final(self)@ == old(self)@.push(
                        (GroupView {
                            name: name@,
                            scope,
                            handles: Seq::new(required as nat, |i: int| HandleStatus::Pending),
                        }),
                    )
                },
                Err(e) => {
                    &&& e == GateError::DuplicateGroup
                    &&& has_group(old(self)@, name@)
                    &&& final(self)@ == old(self)@
                },
            },
    {
        if self.index_of(name).is_some() {
            return Err(GateError::DuplicateGroup);
        }
        let mut handles: Vec<HandleStatus> = Vec::new();
        let mut i: usize = 0;
        while i < required
            invariant
                i <= required,
                handles@.len() == i,
                forall|j: int| 0 <= j < i ==> handles@[j] == HandleStatus::Pending,
            decreases required - i,
        {
            handles.push(HandleStatus::Pending);
            i += 1;
        }
        let k = self.groups.len();
        let group = AssetGroup { name: name.to_owned(), scope, handles };
        proof {
            assert(group@.handles =~= Seq::new(required as nat, |i: int| HandleStatus::Pending));
        }
        self.groups.push(group);
        proof {
            assert(self@ =~= old(self)@.push(group@));
        }
        Ok(k)
    }

    /// Records that a handle resolved. Resolving twice changes nothing.
    pub fn resolve(&mut self, name: &str, handle: usize) -> (r: Result<(), GateError>)
        requires
            old(self).wf(),
        ensures
            final(self).wf(),
            resolves_into(old(self)@, final(self)@),
            r == Err::<(), GateError>(GateError::UnknownGroup) <==> !has_group(old(self)@, name@),
            r is Ok <==> has_handle(old(self)@, name@, handle as int),
            r is Err ==> final(self)@ == old(self)@,
            forall|k: int|
                0 <= k < old(self)@.len() && old(self)@[k].name == name@ ==> {
                    &&& r == Err::<(), GateError>(GateError::UnknownHandle) <==> handle >= old(self)@[k].handles.len()
                    &&& r is Ok ==> final(self)@ == old(self)@.update(
                        k,
                        (GroupView {
                            handles: old(self)@[k].handles.update(
                                handle as int,
                                HandleStatus::Resolved,
                            ),
                            ..old(self)@[k]
                        }),
                    )
                },
    {
        self.settle(name, handle, HandleStatus::Resolved)
    }

    /// Records that a handle failed to load. A handle that has resolved stays
    /// resolved.
    pub fn fail(&mut self, name: &str, handle: usize) -> (r: Result<(), GateError>)
        requires
            old(self).wf(),
        ensures
            final(self).wf(),
            resolves_into(old(self)@, final(self)@),
            r == Err::<(), GateError>(GateError::UnknownGroup) <==> !has_group(old(self)@, name@),
            r is Ok <==> has_handle(old(self)@, name@, handle as int),
            r is Err ==> final(self)@ == old(self)@,
            forall|k: int|
                0 <= k < old(self)@.len() && old(self)@[k].name == name@ ==> {
                    &&& r == Err::<(), GateError>(GateError::UnknownHandle) <==> handle >= old(self)@[k].handles.len()
                    &&& r is Ok ==> final(self)@ == old(self)@.update(
                        k,
                        (GroupView {
                            handles: old(self)@[k].handles.update(
                                handle as int,
                                if old(self)@[k].handles[handle as int] == HandleStatus::Resolved {
                                    HandleStatus::Resolved
                                } else {
                                    HandleStatus::Failed
                                },
                            ),
                            ..old(self)@[k]
                        }),
                    )
                },
    {
        self.settle(name, handle, HandleStatus::Failed)
    }

    fn settle(&mut self, name: &str, handle: usize, status: HandleStatus) -> (r: Result<
        (),
        GateError,
    >)
        requires
            old(self).wf(),
            status != HandleStatus::Pending,
        ensures
            final(self).wf(),
            resolves_into(old(self)@, final(self)@),
            r == Err::<(), GateError>(GateError::UnknownGroup) <==> !has_group(old(self)@, name@),
            r is Ok <==> has_handle(old(self)@, name@, handle as int),
            r is Err ==> final(self)@ == old(self)@,
            forall|k: int|
                0 <= k < old(self)@.len() && old(self)@[k].name == name@ ==> {
                    &&& r == Err::<(), GateError>(GateError::UnknownHandle) <==> handle >= old(self)@[k].handles.len()
                    &&& r is Ok ==> final(self)@ == old(self)@.update(
                        k,
                        (GroupView {
                            handles: old(self)@[k].handles.update(
                                handle as int,
                                if old(self)@[k].handles[handle as int] == HandleStatus::Resolved {
                                    HandleStatus::Resolved
                                } else {
                                    status
                                },
                            ),
                            ..old(self)@[k]
                        }),
                    )
                },
    {
        let k = match self.index_of(name) {
            Some(k) => k,
            None => {
                return Err(GateError::UnknownGroup);
            },
        };
        if handle >= self.groups[k].handles.len() {
            return Err(GateError::UnknownHandle);
        }
        if self.groups[k].handles[handle] != HandleStatus::Resolved {
            self.groups[k].handles[handle] = status;
        }
        proof {
            let target = GroupView {
                handles: old(self)@[k as int].handles.update(
                    handle as int,
                    if old(self)@[k as int].handles[handle as int] == HandleStatus::Resolved {
                        HandleStatus::Resolved
                    } else {
                        status
                    },
                ),
                ..old(self)@[k as int]
            };
            assert(self@[k as int].handles =~= target.handles);
            assert(self@ =~= old(self)@.update(k as int, target));
        }
        Ok(())
    }

    /// Whether the group called `name` exists and has all members resolved.
    pub fn is_ready(&self, name: &str) -> (r: bool)
        requires
            self.wf(),
        ensures
            r == named_ready(self@, name@),
    {
        match self.index_of(name) {
            Some(k) => self.groups[k].ready(),
            None => false,
        }
    }

    /// Whether every group registered for `scope` is ready. A scope without
    /// groups is ready.
    pub fn all_ready(&self, scope: GameState) -> (r: bool)
        ensures
            r == scope_ready(self@, scope),
    {
        let mut k: usize = 0;
        while k < self.groups.len()
            invariant
                k <= self.groups.len(),
                forall|j: int| 0 <= j < k && self@[j].scope == scope ==> group_ready(self@[j]),
            decreases self.groups.len() - k,
        {
            if self.groups[k].scope == scope && !self.groups[k].ready() {
                assert(self@[k as int] == self.groups@[k as int]@);
                return false;
            }
            k += 1;
        }
        true
    }

    /// Whether some group registered for `scope` has a failed member.
    pub fn any_failed(&self, scope: GameState) -> (r: bool)
        ensures
            r == scope_failed(self@, scope),
    {
        let mut k: usize = 0;
        while k < self.groups.len()
            invariant
                k <= self.groups.len(),
                forall|j: int| 0 <= j < k && self@[j].scope == scope ==> !group_failed(self@[j]),
            decreases self.groups.len() - k,
        {
            if self.groups[k].scope == scope && self.groups[k].failed() {
                assert(self@[k as int] == self.groups@[k as int]@);
                return true;
            }
            k += 1;
        }
        false
    }

    /// What the coordinator is told about `scope`.
    pub fn signal(&self, scope: GameState) -> (r: LoadSignal)
        ensures
            r == self.spec_signal(scope),
    {
        if self.any_failed(scope) {
            LoadSignal::Failed
        } else if self.all_ready(scope) {
            LoadSignal::Ready
        } else {
            LoadSignal::Pending
        }
    }
}

/// A group is ready exactly when as many handles are resolved as it
/// requires; never more are resolved than required.
pub proof fn lemma_ready_iff_all_counted(g: GroupView)
    ensures
        resolved_count(g.handles) <= g.handles.len(),
        group_ready(g) <==> resolved_count(g.handles) == g.handles.len(),
    decreases g.handles.len(),
{
    if g.handles.len() > 0 {
        let rest = GroupView { handles: g.handles.drop_last(), ..g };
        lemma_ready_iff_all_counted(rest);
        if group_ready(g) {
            assert forall|i: int| 0 <= i < rest.handles.len() implies rest.handles[i]
                == HandleStatus::Resolved by {
                assert(rest.handles[i] == g.handles[i]);
            }
            assert(g.handles.last() == HandleStatus::Resolved);
        }
        if resolved_count(g.handles) == g.handles.len() {
            assert(group_ready(rest));
            assert forall|i: int| 0 <= i < g.handles.len() implies g.handles[i]
                == HandleStatus::Resolved by {
                if i < rest.handles.len() {
                    assert(rest.handles[i] == g.handles[i]);
                }
            }
        }
    }
}

/// A scope is ready exactly when each of its groups, asked by name, reports
/// ready.
pub proof fn lemma_scope_ready_iff_each_named_ready(groups: Seq<GroupView>, scope: GameState)
    requires
        names_unique(groups),
    ensures
        scope_ready(groups, scope) <==> (forall|k: int|
            0 <= k < groups.len() && groups[k].scope == scope ==> named_ready(
                groups,
                #[trigger] groups[k].name,
            )),
{
    if scope_ready(groups, scope) {
        assert forall|k: int| 0 <= k < groups.len() && groups[k].scope == scope implies named_ready(
            groups,
            #[trigger] groups[k].name,
        ) by {
            assert(group_ready(groups[k]));
        }
    }
    if forall|k: int|
        0 <= k < groups.len() && groups[k].scope == scope ==> named_ready(
            groups,
            #[trigger] groups[k].name,
        ) {
        assert forall|k: int| 0 <= k < groups.len() && groups[k].scope == scope implies group_ready(
            groups[k],
        ) by {
            assert(named_ready(groups, groups[k].name));
            let j = choose|j: int|
                0 <= j < groups.len() && groups[j].name == groups[k].name && group_ready(groups[j]);
            assert(j == k);
        }
    }
}

/// Readiness never reverts: whatever the loading capability reports after a
/// scope became ready, the scope stays ready.
pub proof fn lemma_ready_is_monotone(
    before: Seq<GroupView>,
    after: Seq<GroupView>,
    scope: GameState,
)
    requires
        resolves_into(before, after),
        scope_ready(before, scope),
    ensures
        scope_ready(after, scope),
{
    assert forall|k: int| 0 <= k < after.len() && after[k].scope == scope implies group_ready(
        after[k],
    ) by {
        assert(group_ready(before[k]));
    }
}

/// Reports compose: what holds across one report holds across any number.
pub proof fn lemma_resolves_into_is_transitive(
    a: Seq<GroupView>,
    b: Seq<GroupView>,
    c: Seq<GroupView>,
)
    requires
        resolves_into(a, b),
        resolves_into(b, c),
    ensures
        resolves_into(a, c),
{
    assert forall|k: int| 0 <= k < a.len() implies {
        &&& (#[trigger] c[k]).name == a[k].name
        &&& c[k].scope == a[k].scope
        &&& c[k].handles.len() == a[k].handles.len()
        &&& forall|i: int|
            0 <= i < a[k].handles.len() && a[k].handles[i] == HandleStatus::Resolved
                ==> c[k].handles[i] == HandleStatus::Resolved
    } by {
        assert(b[k].name == a[k].name);
    }
}

} // verus!
