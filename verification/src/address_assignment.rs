//! The address-assignment pass: a pure function from the ordered component
//! registry and the address-space grouping to a mapping from every component
//! id to a 64-bit base virtual address.
//!
//! Two allocation policies live side by side:
//!
//! * components of a *shared* group are placed one architectural slot apart,
//!   starting at [`BASE_OFFSET`] for a group without a parent and exactly
//!   where the parent group's range ended otherwise;
//! * an *exclusive* component receives its own address space, at
//!   [`BASE_OFFSET`] or at a spec-declared hexadecimal override; a malformed
//!   override falls back to the default with a warning and never aborts.

use vstd::arithmetic::div_mod::lemma_fundamental_div_mod;
use vstd::arithmetic::power::{lemma_pow_adds, lemma_pow_multiplies, pow};
use vstd::arithmetic::power2::{lemma2_to64, lemma_pow2, lemma_pow2_subtracts, pow2};
use vstd::prelude::*;
use crate::hexaddr::parse_hex_override;
use crate::registry::{has_name, id_of, lemma_id_of, names_unique, ComponentId, Registry};

verus! {

/// Default starting offset of every address space: 4 MiB, a known value far
/// above the null page.
pub const BASE_OFFSET: u64 = 0x400000;

/// Size of the virtual-address range behind one top-level page-table entry on
/// x86-64: three page-table levels of 512 entries each over 4 KiB pages, so
/// (2^9)^3 * 2^12 = 2^39 bytes. It equals the full 48-bit canonical address
/// range divided by the 2^9 top-level entries; see
/// [`lemma_slot_size_self_check`].
pub const SLOT_SIZE: u64 = 0x80_0000_0000;

/// A named set of components sharing one virtual address space. The order of
/// `components` determines placement order within the space; when `parent`
/// names another group, this group's range continues where the parent's
/// ended.
#[derive(Clone)]
pub struct AddressSpaceGroup {
    pub name: String,
    pub components: Vec<String>,
    pub parent: Option<String>,
}

pub ghost struct GroupView {
    pub name: Seq<char>,
    pub components: Seq<Seq<char>>,
    pub parent: Option<Seq<char>>,
}

impl View for AddressSpaceGroup {
    type V = GroupView;

    open spec fn view(&self) -> GroupView {
        GroupView {
            name: self.name@,
            components: self.components@.map_values(|c: String| c@),
            parent: match self.parent {
                Some(p) => Some(p@),
                None => None,
            },
        }
    }
}

/// A component outside every shared group: it receives its own full address
/// space, either at the default base offset or at the value of an optional,
/// spec-declared hexadecimal override.
#[derive(Clone)]
pub struct ExclusiveComponent {
    pub name: String,
    pub base_vaddr: Option<String>,
}

pub ghost struct ExclusiveView {
    pub name: Seq<char>,
    pub base_vaddr: Option<Seq<char>>,
}

impl View for ExclusiveComponent {
    type V = ExclusiveView;

    open spec fn view(&self) -> ExclusiveView {
        ExclusiveView {
            name: self.name@,
            base_vaddr: match self.base_vaddr {
                Some(s) => Some(s@),
                None => None,
            },
        }
    }
}

/// A recoverable input-format warning: the named component declared a
/// base-address override that does not read as hexadecimal, and the default
/// was used instead.
pub struct Warning {
    pub component: String,
    pub base_vaddr: String,
}

pub ghost struct WarningView {
    pub component: Seq<char>,
    pub base_vaddr: Seq<char>,
}

impl View for Warning {
    type V = WarningView;

    open spec fn view(&self) -> WarningView {
        WarningView { component: self.component@, base_vaddr: self.base_vaddr@ }
    }
}

/// A fatal error of the pass. Every variant reports invalid state produced by
/// an earlier pass (the registry is presumed validated), not bad user input.
#[derive(Debug)]
pub enum AssignError {
    /// A group continues a parent that no earlier group assigned.
    UnassignedParent { group: String, parent: String },
    /// A grouped or exclusive component name is absent from the registry.
    UnknownComponent { name: String },
    /// A component was placed twice: in two group slots, in two exclusive
    /// entries, or in both a group and an exclusive space.
    DuplicatePlacement { name: String },
    /// A registry component was placed in no group and no exclusive space.
    UnplacedComponent { name: String },
}

pub open spec fn groups_of(gs: Seq<AddressSpaceGroup>) -> Seq<GroupView> {
    gs.map_values(|g: AddressSpaceGroup| g@)
}

pub open spec fn exclusives_of(es: Seq<ExclusiveComponent>) -> Seq<ExclusiveView> {
    es.map_values(|e: ExclusiveComponent| e@)
}

/// The latest group strictly before `upto` carrying `name`: the group a
/// parent reference of a group at index `upto` resolves to.
pub open spec fn last_group_named(groups: Seq<GroupView>, upto: int, name: Seq<char>) -> Option<
    int,
>
    decreases upto,
{
    if upto <= 0 {
        None
    } else if groups[upto - 1].name == name {
        Some(upto - 1)
    } else {
        last_group_named(groups, upto - 1, name)
    }
}

pub proof fn lemma_last_group_named(groups: Seq<GroupView>, upto: int, name: Seq<char>)
    requires
        upto <= groups.len(),
    ensures
        last_group_named(groups, upto, name) matches Some(j) ==> 0 <= j < upto && groups[j].name
            == name,
        last_group_named(groups, upto, name) is None ==> forall|j: int|
            0 <= j < upto ==> (#[trigger] groups[j]).name != name,
    decreases upto,
{
    if upto > 0 {
        lemma_last_group_named(groups, upto - 1, name);
    }
}

/// Where the range of group `g` starts: `BASE_OFFSET` without a parent, one
/// slot past the parent's last component otherwise. `None` when the parent
/// name resolves to no earlier group: a fatal internal invariant violation,
/// the processing order was no topological order over the parent relation.
pub open spec fn group_start(groups: Seq<GroupView>, g: int) -> Option<int>
    decreases g,
{
    match groups[g].parent {
        None => Some(BASE_OFFSET as int),
        Some(p) => match last_group_named(groups, g, p) {
            None => None,
            Some(j) => if 0 <= j < g {
                match group_start(groups, j) {
                    None => None,
                    Some(s) => Some(s + groups[j].components.len() * (SLOT_SIZE as int)),
                }
            } else {
                None
            },
        },
    }
}

/// The address of the component at position `k` of group `g`; meaningful only
/// when the group's start is defined.
pub open spec fn group_addr(groups: Seq<GroupView>, g: int, k: int) -> int {
    group_start(groups, g)->0 + k * (SLOT_SIZE as int)
}

/// The parent reference of group `g`, if any, resolves to an earlier group.
pub open spec fn parent_ok(groups: Seq<GroupView>, g: int) -> bool {
    match groups[g].parent {
        None => true,
        Some(p) => last_group_named(groups, g, p) is Some,
    }
}

pub open spec fn parents_resolve(groups: Seq<GroupView>) -> bool {
    forall|g: int| 0 <= g < groups.len() ==> #[trigger] parent_ok(groups, g)
}

/// Every name a group places is a registry name.
pub open spec fn group_names_resolve(reg: Seq<Seq<char>>, groups: Seq<GroupView>) -> bool {
    forall|g: int, k: int|
        0 <= g < groups.len() && 0 <= k < groups[g].components.len() ==> has_name(
            reg,
            #[trigger] groups[g].components[k],
        )
}

/// Every exclusive component name is a registry name.
pub open spec fn exclusive_names_resolve(reg: Seq<Seq<char>>, excl: Seq<ExclusiveView>) -> bool {
    forall|e: int| 0 <= e < excl.len() ==> has_name(reg, (#[trigger] excl[e]).name)
}

pub open spec fn placed_in_groups(groups: Seq<GroupView>, name: Seq<char>) -> bool {
    exists|g: int, k: int|
        0 <= g < groups.len() && 0 <= k < groups[g].components.len()
            && #[trigger] groups[g].components[k] == name
}

pub open spec fn placed_exclusive(excl: Seq<ExclusiveView>, name: Seq<char>) -> bool {
    exists|e: int| 0 <= e < excl.len() && (#[trigger] excl[e]).name == name
}

/// Every registry component is placed somewhere: in a shared group or in its
/// own exclusive space.
pub open spec fn covers_registry(
    reg: Seq<Seq<char>>,
    groups: Seq<GroupView>,
    excl: Seq<ExclusiveView>,
) -> bool {
    forall|i: int|
        0 <= i < reg.len() ==> placed_in_groups(groups, #[trigger] reg[i]) || placed_exclusive(
            excl,
            reg[i],
        )
}

/// No component is placed twice: group slots and exclusive entries name
/// pairwise distinct components. The upstream naming pass has validated this;
/// it is what lets each component live in exactly one address space.
pub open spec fn placements_unique(groups: Seq<GroupView>, excl: Seq<ExclusiveView>) -> bool {
    &&& forall|g1: int, k1: int, g2: int, k2: int|
        #![trigger groups[g1].components[k1], groups[g2].components[k2]]
        0 <= g1 < groups.len() && 0 <= k1 < groups[g1].components.len() && 0 <= g2 < groups.len()
            && 0 <= k2 < groups[g2].components.len() && (g1 != g2 || k1 != k2)
            ==> groups[g1].components[k1] != groups[g2].components[k2]
    &&& forall|e1: int, e2: int|
        0 <= e1 < e2 < excl.len() ==> (#[trigger] excl[e1]).name != (#[trigger] excl[e2]).name
    &&& forall|g: int, k: int, e: int|
        #![trigger groups[g].components[k], excl[e].name]
        0 <= g < groups.len() && 0 <= k < groups[g].components.len() && 0 <= e < excl.len()
            ==> groups[g].components[k] != excl[e].name
}

/// The address an exclusive component is assigned: the parsed override when
/// one is declared and well-formed, the default base offset otherwise.
pub open spec fn exclusive_addr(e: ExclusiveView) -> u64 {
    match e.base_vaddr {
        None => BASE_OFFSET,
        Some(s) => match parse_hex_override(s) {
            Some(v) => v,
            None => BASE_OFFSET,
        },
    }
}

/// An exclusive component draws a warning exactly when it declares an
/// override that does not parse.
pub open spec fn exclusive_warns(e: ExclusiveView) -> bool {
    e.base_vaddr matches Some(s) && parse_hex_override(s) is None
}

pub open spec fn warning_of(e: ExclusiveView) -> WarningView {
    WarningView {
        component: e.name,
        base_vaddr: match e.base_vaddr {
            Some(s) => s,
            None => Seq::empty(),
        },
    }
}

/// The warnings the pass returns: one per malformed override, in declaration
/// order.
pub open spec fn expected_warnings(excl: Seq<ExclusiveView>) -> Seq<WarningView>
    decreases excl.len(),
{
    if excl.len() == 0 {
        Seq::empty()
    } else if exclusive_warns(excl.last()) {
        expected_warnings(excl.drop_last()).push(warning_of(excl.last()))
    } else {
        expected_warnings(excl.drop_last())
    }
}

/// The warnings as the pass's callers see them.
pub open spec fn warning_views(ws: Seq<Warning>) -> Seq<WarningView> {
    ws.map_values(|w: Warning| w@)
}

/// The component at position `k` of group `g` is assigned exactly the `k`-th
/// slot of the group's range.
pub open spec fn group_component_addr_ok(
    reg: Seq<Seq<char>>,
    groups: Seq<GroupView>,
    a: Seq<u64>,
    g: int,
    k: int,
) -> bool {
    &&& has_name(reg, groups[g].components[k])
    &&& group_start(groups, g) is Some
    &&& 0 <= id_of(reg, groups[g].components[k]) < a.len()
    &&& a[id_of(reg, groups[g].components[k])] == group_addr(groups, g, k)
}

/// Exclusive entry `e` is assigned its declared or default address.
pub open spec fn exclusive_addr_ok(
    reg: Seq<Seq<char>>,
    excl: Seq<ExclusiveView>,
    a: Seq<u64>,
    e: int,
) -> bool {
    &&& has_name(reg, excl[e].name)
    &&& 0 <= id_of(reg, excl[e].name) < a.len()
    &&& a[id_of(reg, excl[e].name)] == exclusive_addr(excl[e])
}

/// `a` is the address assignment the policy dictates: one entry per registry
/// component, group components one slot apart from their group's start, and
/// exclusive components at their declared or default base.
pub open spec fn conforms(
    reg: Seq<Seq<char>>,
    groups: Seq<GroupView>,
    excl: Seq<ExclusiveView>,
    a: Seq<u64>,
) -> bool {
    &&& a.len() == reg.len()
    &&& forall|g: int, k: int|
        0 <= g < groups.len() && 0 <= k < groups[g].components.len()
            ==> #[trigger] group_component_addr_ok(reg, groups, a, g, k)
    &&& forall|e: int| 0 <= e < excl.len() ==> #[trigger] exclusive_addr_ok(reg, excl, a, e)
}

/// Slots of groups before `g`: how many shared placements precede group `g`.
pub open spec fn slots_upto(groups: Seq<GroupView>, g: int) -> int
    decreases g,
{
    if g <= 0 {
        0
    } else {
        slots_upto(groups, g - 1) + groups[g - 1].components.len()
    }
}

pub open spec fn total_slots(groups: Seq<GroupView>) -> int {
    slots_upto(groups, groups.len() as int)
}

pub proof fn lemma_slots_upto_monotone(groups: Seq<GroupView>, g1: int, g2: int)
    requires
        0 <= g1 <= g2,
    ensures
        slots_upto(groups, g1) <= slots_upto(groups, g2),
    decreases g2 - g1,
{
    if g1 < g2 {
        lemma_slots_upto_monotone(groups, g1, g2 - 1);
    }
}

/// Group ranges stay within the capacity bound: when a group's start is
/// defined, its whole range lies between `BASE_OFFSET` and the end of the
/// shared-slot budget.
pub proof fn lemma_group_range_bounded(groups: Seq<GroupView>, g: int)
    requires
        0 <= g < groups.len(),
        group_start(groups, g) is Some,
    ensures
        BASE_OFFSET <= group_start(groups, g)->0,
        group_start(groups, g)->0 + groups[g].components.len() * (SLOT_SIZE as int) <= BASE_OFFSET
            + slots_upto(groups, g + 1) * (SLOT_SIZE as int),
    decreases g,
{
    assert(slots_upto(groups, g + 1) == slots_upto(groups, g) + groups[g].components.len());
    match groups[g].parent {
        None => {
            lemma_slots_upto_monotone(groups, 0, g);
        },
        Some(p) => {
            let j = last_group_named(groups, g, p)->0;
            lemma_group_range_bounded(groups, j);
            lemma_slots_upto_monotone(groups, j + 1, g);
        },
    }
}

/// The architectural self-check on the slot size: (2^9)^3 * 2^12 equals
/// 2^48 / 2^9, the 48-bit canonical address range divided by the number of
/// top-level page-table entries, and both equal [`SLOT_SIZE`].
pub proof fn lemma_slot_size_self_check()
    ensures
        SLOT_SIZE as int == pow(pow(2, 9), 3) * pow(2, 12),
        SLOT_SIZE as int == pow(2, 48) / pow(2, 9),
        SLOT_SIZE as int == pow2(39),
{
    lemma2_to64();
    lemma_pow2(9);
    lemma_pow2(12);
    lemma_pow2(27);
    lemma_pow2(39);
    lemma_pow2(48);
    lemma_pow_multiplies(2, 9, 3);
    lemma_pow_adds(2, 27, 12);
    lemma_pow2_subtracts(9, 48);
}

/// During the group walk: the slot of the component at position `k1` of group
/// `g1` already holds that group position's address.
spec fn group_slot_ok(
    reg: Seq<Seq<char>>,
    groups: Seq<GroupView>,
    a: Seq<Option<u64>>,
    g1: int,
    k1: int,
) -> bool {
    &&& has_name(reg, groups[g1].components[k1])
    &&& group_start(groups, g1) is Some
    &&& 0 <= id_of(reg, groups[g1].components[k1]) < a.len()
    &&& a[id_of(reg, groups[g1].components[k1])] == Some(group_addr(groups, g1, k1) as u64)
    &&& group_addr(groups, g1, k1) <= u64::MAX
}

/// During the exclusive walk: the slot of exclusive entry `e1` already holds
/// its declared or default address.
spec fn exclusive_slot_ok(
    reg: Seq<Seq<char>>,
    excl: Seq<ExclusiveView>,
    a: Seq<Option<u64>>,
    e1: int,
) -> bool {
    &&& has_name(reg, excl[e1].name)
    &&& 0 <= id_of(reg, excl[e1].name) < a.len()
    &&& a[id_of(reg, excl[e1].name)] == Some(exclusive_addr(excl[e1]))
}

/// Scan order of the group walk: position `(g1, k1)` is handled strictly
/// before `(g2, k2)`.
spec fn pos_before(g1: int, k1: int, g2: int, k2: int) -> bool {
    g1 < g2 || (g1 == g2 && k1 < k2)
}

/// Some group slot handled before `(g, k)` places `name`.
spec fn placed_group_before(groups: Seq<GroupView>, g: int, k: int, name: Seq<char>) -> bool {
    exists|g1: int, k1: int|
        0 <= g1 < groups.len() && 0 <= k1 < groups[g1].components.len() && pos_before(
            g1,
            k1,
            g,
            k,
        ) && #[trigger] groups[g1].components[k1] == name
}

/// Some exclusive entry before `e` places `name`.
spec fn placed_excl_before(excl: Seq<ExclusiveView>, e: int, name: Seq<char>) -> bool {
    exists|e1: int| 0 <= e1 < e && (#[trigger] excl[e1]).name == name
}

/// The group slots handled before `(g, k)` name pairwise distinct components.
spec fn group_prefix_unique(groups: Seq<GroupView>, g: int, k: int) -> bool {
    forall|g1: int, k1: int, g2: int, k2: int|
        #![trigger groups[g1].components[k1], groups[g2].components[k2]]
        0 <= g1 < groups.len() && 0 <= k1 < groups[g1].components.len() && 0 <= g2 < groups.len()
            && 0 <= k2 < groups[g2].components.len() && pos_before(g1, k1, g, k) && pos_before(
            g2,
            k2,
            g,
            k,
        ) && (g1 != g2 || k1 != k2) ==> groups[g1].components[k1] != groups[g2].components[k2]
}

/// The exclusive entries before `e` name pairwise distinct components, all of
/// them distinct from every group slot's component.
spec fn excl_prefix_unique(groups: Seq<GroupView>, excl: Seq<ExclusiveView>, e: int) -> bool {
    &&& forall|e1: int, e2: int|
        0 <= e1 < e2 < e ==> (#[trigger] excl[e1]).name != (#[trigger] excl[e2]).name
    &&& forall|g1: int, k1: int, e1: int|
        #![trigger groups[g1].components[k1], excl[e1].name]
        0 <= g1 < groups.len() && 0 <= k1 < groups[g1].components.len() && 0 <= e1 < e
            ==> groups[g1].components[k1] != excl[e1].name
}

/// The latest group strictly before `g` named `p`, or `None`: the executable
/// counterpart of [`last_group_named`].
fn find_last_group_named(groups: &Vec<AddressSpaceGroup>, g: usize, p: &String) -> (r: Option<
    usize,
>)
    requires
        g <= groups@.len(),
    ensures
        r matches Some(j) ==> j < g && last_group_named(groups_of(groups@), g as int, p@) == Some(
            j as int,
        ),
        r is None ==> last_group_named(groups_of(groups@), g as int, p@) is None,
{
    let ghost gv = groups_of(groups@);
    let mut j: usize = g;
    while j > 0
        invariant
            j <= g <= groups@.len(),
            gv == groups_of(groups@),
            last_group_named(gv, g as int, p@) == last_group_named(gv, j as int, p@),
        decreases j,
    {
        proof {
            assert(gv[j - 1] == groups@[j - 1]@);
        }
        if groups[j - 1].name == *p {
            return Some(j - 1);
        }
        j -= 1;
    }
    None
}

/// The address-assignment pass for the x86-64 virtual-address geometry: a
/// total mapping from every registry component id to the base virtual address
/// of the component, indexed by id.
pub struct AddressAssignmentx86_64 {
    baseaddrs: Vec<u64>,
}

impl View for AddressAssignmentx86_64 {
    type V = Seq<u64>;

    closed spec fn view(&self) -> Seq<u64> {
        self.baseaddrs@
    }
}

impl AddressAssignmentx86_64 {
    /// The base virtual address assigned to `id`. The registry was validated
    /// before the pass ran, so every id it issued has an entry.
    pub fn component_baseaddr(&self, id: &ComponentId) -> (addr: u64)
        requires
            id.id < self@.len(),
        ensures
            addr == self@[id.id as int],
    {
        self.baseaddrs[id.id]
    }

    /// How many components hold an address: one entry per registry component.
    pub fn len(&self) -> (n: usize)
        ensures
            n == self@.len(),
    {
        self.baseaddrs.len()
    }

    /// Derives the address assignment from the registry and the address-space
    /// grouping.
    ///
    /// Success is owed exactly when every placed name is a registry name,
    /// every parent reference resolves to an earlier group, no component is
    /// placed twice, and every registry component is placed; the errors name
    /// the offender. On success the returned mapping [`conforms`] to the
    /// layout policy, and the warnings are exactly the malformed overrides,
    /// in declaration order.
    ///
    /// The capacity bound in the requires is the machine limit on the shared
    /// ranges; [`capacity_within_bounds`] checks it.
    #[verifier::loop_isolation(false)]
    pub fn transition(
        registry: &Registry,
        groups: &Vec<AddressSpaceGroup>,
        exclusives: &Vec<ExclusiveComponent>,
    ) -> (r: Result<(AddressAssignmentx86_64, Vec<Warning>), AssignError>)
        requires
            registry.wf(),
            BASE_OFFSET + total_slots(groups_of(groups@)) * SLOT_SIZE <= u64::MAX,
        ensures
            r is Ok <==> (group_names_resolve(registry@, groups_of(groups@))
                && exclusive_names_resolve(registry@, exclusives_of(exclusives@))
                && parents_resolve(groups_of(groups@)) && placements_unique(
                groups_of(groups@),
                exclusives_of(exclusives@),
            ) && covers_registry(registry@, groups_of(groups@), exclusives_of(exclusives@))),
            r matches Ok(p) ==> conforms(
                registry@,
                groups_of(groups@),
                exclusives_of(exclusives@),
                p.0@,
            ) && warning_views(p.1@) == expected_warnings(exclusives_of(exclusives@)),
            r matches Err(AssignError::UnassignedParent { group, parent }) ==> exists|g: int|
                0 <= g < groups_of(groups@).len() && (#[trigger] groups_of(groups@)[g]).name
                    == group@ && groups_of(groups@)[g].parent == Some(parent@) && last_group_named(
                    groups_of(groups@),
                    g,
                    parent@,
                ) is None,
            r matches Err(AssignError::UnknownComponent { name }) ==> !has_name(registry@, name@)
                && (placed_in_groups(groups_of(groups@), name@) || placed_exclusive(
                exclusives_of(exclusives@),
                name@,
            )),
            r matches Err(AssignError::DuplicatePlacement { name }) ==> has_name(registry@, name@)
                && !placements_unique(groups_of(groups@), exclusives_of(exclusives@)),
            r matches Err(AssignError::UnplacedComponent { name }) ==> has_name(registry@, name@)
                && !placed_in_groups(groups_of(groups@), name@) && !placed_exclusive(
                exclusives_of(exclusives@),
                name@,
            ),
    {
        let ghost reg = registry@;
        let ghost gv = groups_of(groups@);
        let ghost ev = exclusives_of(exclusives@);
        let n = registry.len();

        let mut slots: Vec<Option<u64>> = Vec::new();
        let mut i0: usize = 0;
        while i0 < n
            invariant
                slots@.len() == i0 <= n,
                forall|q: int| 0 <= q < i0 ==> slots@[q] is None,
            decreases n - i0,
        {
            slots.push(None);
            i0 += 1;
        }

        // Walk the shared groups in their given order; the order respects the
        // parent relation, or the walk fails on the group that breaks it.
        let mut lastaddr: Vec<u64> = Vec::new();
        let ngroups = groups.len();
        let mut g: usize = 0;
        while g < ngroups
            invariant
                g <= ngroups,
                slots@.len() == n,
                lastaddr@.len() == g,
                forall|j: int|
                    0 <= j < g ==> #[trigger] parent_ok(gv, j) && group_start(gv, j) is Some
                        && lastaddr@[j] == group_start(gv, j)->0 + gv[j].components.len() * (
                    SLOT_SIZE as int),
                forall|g1: int, k1: int|
                    0 <= g1 < gv.len() && 0 <= k1 < gv[g1].components.len() && pos_before(
                        g1,
                        k1,
                        g as int,
                        0,
                    ) ==> #[trigger] group_slot_ok(reg, gv, slots@, g1, k1),
                forall|q: int|
                    0 <= q < n ==> (#[trigger] slots@[q] is Some ==> placed_group_before(
                        gv,
                        g as int,
                        0,
                        reg[q],
                    )),
                group_prefix_unique(gv, g as int, 0),
            decreases ngroups - g,
        {
            let group = &groups[g];
            proof {
                assert(gv[g as int] == groups@[g as int]@);
            }
            let mut offset: u64;
            match &group.parent {
                None => {
                    offset = BASE_OFFSET;
                    proof {
                        assert(group_start(gv, g as int) == Some(BASE_OFFSET as int));
                    }
                },
                Some(p) => {
                    match find_last_group_named(groups, g, p) {
                        None => {
                            proof {
                                assert(!parent_ok(gv, g as int));
                            }
                            return Err(
                                AssignError::UnassignedParent {
                                    group: group.name.clone(),
                                    parent: p.clone(),
                                },
                            );
                        },
                        Some(j) => {
                            offset = lastaddr[j];
                            proof {
                                assert((j as int) < (g as int));
                                assert(parent_ok(gv, j as int));
                                assert(group_start(gv, j as int) is Some);
                                assert(lastaddr@[j as int] == group_start(gv, j as int)->0 + gv[
                                    j as int].components.len() * (SLOT_SIZE as int));
                                assert(group_start(gv, g as int) == Some(offset as int));
                            }
                        },
                    }
                },
            }
            proof {
                lemma_group_range_bounded(gv, g as int);
                lemma_slots_upto_monotone(gv, g as int + 1, ngroups as int);
            }
            let ncomps = group.components.len();
            let ghost start0 = group_start(gv, g as int)->0;
            let mut k: usize = 0;
            while k < ncomps
                invariant
                    k <= ncomps,
                    slots@.len() == n,
                    offset == start0 + k * (SLOT_SIZE as int),
                    start0 + ncomps * (SLOT_SIZE as int) <= u64::MAX,
                    forall|g1: int, k1: int|
                        0 <= g1 < gv.len() && 0 <= k1 < gv[g1].components.len() && pos_before(
                            g1,
                            k1,
                            g as int,
                            k as int,
                        ) ==> #[trigger] group_slot_ok(reg, gv, slots@, g1, k1),
                    forall|q: int|
                        0 <= q < n ==> (#[trigger] slots@[q] is Some ==> placed_group_before(
                            gv,
                            g as int,
                            k as int,
                            reg[q],
                        )),
                    group_prefix_unique(gv, g as int, k as int),
                decreases ncomps - k,
            {
                let name = &group.components[k];
                proof {
                    assert(gv[g as int].components[k as int] == group.components@[k as int]@);
                }
                match registry.lookup(name) {
                    None => {
                        proof {
                            assert(placed_in_groups(gv, name@));
                        }
                        return Err(AssignError::UnknownComponent { name: name.clone() });
                    },
                    Some(cid) => {
                        proof {
                            lemma_id_of(reg, name@);
                            assert(id_of(reg, name@) == cid.id as int);
                        }
                        if slots[cid.id].is_some() {
                            // The component already holds an address: an
                            // earlier placement named it too.
                            proof {
                                let (g1, k1) = choose|g1: int, k1: int|
                                    0 <= g1 < gv.len() && 0 <= k1 < gv[g1].components.len()
                                        && pos_before(g1, k1, g as int, k as int)
                                        && #[trigger] gv[g1].components[k1] == reg[cid.id as int];
                                assert(gv[g1].components[k1] == gv[g as int].components[k as int]);
                                assert(!placements_unique(gv, ev));
                            }
                            return Err(AssignError::DuplicatePlacement { name: name.clone() });
                        }
                        proof {
                            assert(k * (SLOT_SIZE as int) <= ncomps * (SLOT_SIZE as int));
                        }
                        let ghost pre = slots@;
                        slots[cid.id] = Some(offset);
                        proof {
                            assert(slots@ == pre.update(cid.id as int, Some(offset)));
                            assert forall|g1: int, k1: int|
                                0 <= g1 < gv.len() && 0 <= k1 < gv[g1].components.len()
                                    && pos_before(g1, k1, g as int, k as int + 1)
                                    implies #[trigger] group_slot_ok(reg, gv, slots@, g1, k1) by {
                                if g1 == g && k1 == k {
                                    assert(group_addr(gv, g1, k1) == offset as int);
                                    assert(group_slot_ok(reg, gv, slots@, g1, k1));
                                } else {
                                    assert(group_slot_ok(reg, gv, pre, g1, k1));
                                    assert(pre[id_of(reg, gv[g1].components[k1])] is Some);
                                    assert(id_of(reg, gv[g1].components[k1]) != cid.id as int);
                                }
                            }
                            assert forall|q: int|
                                0 <= q < n && #[trigger] slots@[q] is Some implies
                                placed_group_before(gv, g as int, k as int + 1, reg[q]) by {
                                if q == cid.id as int {
                                    assert(reg[q] == gv[g as int].components[k as int]);
                                    assert(placed_group_before(gv, g as int, k as int + 1, reg[q]));
                                } else {
                                    assert(pre[q] is Some);
                                    assert(placed_group_before(gv, g as int, k as int, reg[q]));
                                    let (g1, k1) = choose|g1: int, k1: int|
                                        0 <= g1 < gv.len() && 0 <= k1 < gv[g1].components.len()
                                            && pos_before(g1, k1, g as int, k as int)
                                            && #[trigger] gv[g1].components[k1] == reg[q];
                                    assert(pos_before(g1, k1, g as int, k as int + 1));
                                    assert(placed_group_before(gv, g as int, k as int + 1, reg[q]));
                                }
                            }
                            assert forall|g1: int, k1: int, g2: int, k2: int|
                                #![trigger gv[g1].components[k1], gv[g2].components[k2]]
                                0 <= g1 < gv.len() && 0 <= k1 < gv[g1].components.len() && 0 <= g2
                                    < gv.len() && 0 <= k2 < gv[g2].components.len() && pos_before(
                                    g1,
                                    k1,
                                    g as int,
                                    k as int + 1,
                                ) && pos_before(g2, k2, g as int, k as int + 1) && (g1 != g2 || k1
                                    != k2) implies gv[g1].components[k1] != gv[g2].components[k2]
                                by {
                                if gv[g1].components[k1] == gv[g2].components[k2] {
                                    if g1 == g && k1 == k {
                                        assert(pos_before(g2, k2, g as int, k as int));
                                        assert(group_slot_ok(reg, gv, pre, g2, k2));
                                        assert(pre[id_of(reg, gv[g2].components[k2])] is Some);
                                        assert(id_of(reg, gv[g2].components[k2]) == cid.id as int);
                                        assert(false);
                                    } else if g2 == g && k2 == k {
                                        assert(pos_before(g1, k1, g as int, k as int));
                                        assert(group_slot_ok(reg, gv, pre, g1, k1));
                                        assert(pre[id_of(reg, gv[g1].components[k1])] is Some);
                                        assert(id_of(reg, gv[g1].components[k1]) == cid.id as int);
                                        assert(false);
                                    } else {
                                        assert(pos_before(g1, k1, g as int, k as int));
                                        assert(pos_before(g2, k2, g as int, k as int));
                                        assert(false);
                                    }
                                }
                            }
                        }
                        proof {
                            assert((k + 1) * (SLOT_SIZE as int) == k * (SLOT_SIZE as int) + (
                            SLOT_SIZE as int));
                        }
                        offset = offset + SLOT_SIZE;
                    },
                }
                k += 1;
            }
            proof {
                assert forall|g1: int, k1: int|
                    0 <= g1 < gv.len() && 0 <= k1 < gv[g1].components.len() && pos_before(
                        g1,
                        k1,
                        g as int + 1,
                        0,
                    ) implies #[trigger] group_slot_ok(reg, gv, slots@, g1, k1) by {
                    assert(pos_before(g1, k1, g as int, ncomps as int));
                }
                assert forall|q: int|
                    0 <= q < n && #[trigger] slots@[q] is Some implies placed_group_before(
                    gv,
                    g as int + 1,
                    0,
                    reg[q],
                ) by {
                    assert(placed_group_before(gv, g as int, ncomps as int, reg[q]));
                    let (g1, k1) = choose|g1: int, k1: int|
                        0 <= g1 < gv.len() && 0 <= k1 < gv[g1].components.len() && pos_before(
                            g1,
                            k1,
                            g as int,
                            ncomps as int,
                        ) && #[trigger] gv[g1].components[k1] == reg[q];
                    assert(pos_before(g1, k1, g as int + 1, 0));
                }
            }
            lastaddr.push(offset);
            g += 1;
        }

        // Components within their own exclusive address space: the default
        // base address, or the one the composition script declares.
        let mut warns: Vec<Warning> = Vec::new();
        let nexcl = exclusives.len();
        let mut e: usize = 0;
        while e < nexcl
            invariant
                e <= nexcl,
                slots@.len() == n,
                forall|g1: int, k1: int|
                    0 <= g1 < gv.len() && 0 <= k1 < gv[g1].components.len()
                        ==> #[trigger] group_slot_ok(reg, gv, slots@, g1, k1),
                forall|e1: int| 0 <= e1 < e ==> #[trigger] exclusive_slot_ok(reg, ev, slots@, e1),
                forall|q: int|
                    0 <= q < n ==> (#[trigger] slots@[q] is Some ==> placed_in_groups(gv, reg[q])
                        || placed_excl_before(ev, e as int, reg[q])),
                excl_prefix_unique(gv, ev, e as int),
                warning_views(warns@) == expected_warnings(ev.subrange(0, e as int)),
            decreases nexcl - e,
        {
            let exc = &exclusives[e];
            proof {
                assert(ev[e as int] == exclusives@[e as int]@);
            }
            match registry.lookup(&exc.name) {
                None => {
                    proof {
                        assert(placed_exclusive(ev, exc.name@));
                    }
                    return Err(AssignError::UnknownComponent { name: exc.name.clone() });
                },
                Some(cid) => {
                    proof {
                        lemma_id_of(reg, exc.name@);
                        assert(id_of(reg, exc.name@) == cid.id as int);
                    }
                    if slots[cid.id].is_some() {
                        // The component already holds an address, from a group
                        // or from an earlier exclusive entry.
                        proof {
                            if placed_in_groups(gv, reg[cid.id as int]) {
                                let (g1, k1) = choose|g1: int, k1: int|
                                    0 <= g1 < gv.len() && 0 <= k1 < gv[g1].components.len()
                                        && #[trigger] gv[g1].components[k1] == reg[cid.id as int];
                                assert(gv[g1].components[k1] == ev[e as int].name);
                                assert(!placements_unique(gv, ev));
                            } else {
                                let e1 = choose|e1: int|
                                    0 <= e1 < e && (#[trigger] ev[e1]).name == reg[cid.id as int];
                                assert(ev[e1].name == ev[e as int].name);
                                assert(!placements_unique(gv, ev));
                            }
                        }
                        return Err(AssignError::DuplicatePlacement { name: exc.name.clone() });
                    }
                    let ghost wpre = warns@;
                    let mut addr: u64 = BASE_OFFSET;
                    match &exc.base_vaddr {
                        None => {},
                        Some(sv) => {
                            match crate::hexaddr::parse_override(sv.as_str()) {
                                Some(v) => {
                                    addr = v;
                                },
                                None => {
                                    warns.push(
                                        Warning {
                                            component: exc.name.clone(),
                                            base_vaddr: sv.clone(),
                                        },
                                    );
                                },
                            }
                        },
                    }
                    proof {
                        assert(addr == exclusive_addr(ev[e as int]));
                    }
                    let ghost pre = slots@;
                    slots[cid.id] = Some(addr);
                    proof {
                        assert(slots@ == pre.update(cid.id as int, Some(addr)));
                        assert forall|g1: int, k1: int|
                            0 <= g1 < gv.len() && 0 <= k1 < gv[g1].components.len()
                                implies #[trigger] group_slot_ok(reg, gv, slots@, g1, k1) by {
                            assert(group_slot_ok(reg, gv, pre, g1, k1));
                            assert(pre[id_of(reg, gv[g1].components[k1])] is Some);
                            assert(id_of(reg, gv[g1].components[k1]) != cid.id as int);
                        }
                        assert forall|e1: int| 0 <= e1 < e + 1 implies #[trigger] exclusive_slot_ok(
                            reg,
                            ev,
                            slots@,
                            e1,
                        ) by {
                            if e1 < e {
                                assert(exclusive_slot_ok(reg, ev, pre, e1));
                                assert(pre[id_of(reg, ev[e1].name)] is Some);
                                assert(id_of(reg, ev[e1].name) != cid.id as int);
                            }
                        }
                        assert forall|q: int|
                            0 <= q < n && #[trigger] slots@[q] is Some implies placed_in_groups(
                            gv,
                            reg[q],
                        ) || placed_excl_before(ev, e as int + 1, reg[q]) by {
                            if q == cid.id as int {
                                assert(reg[q] == ev[e as int].name);
                                assert(placed_excl_before(ev, e as int + 1, reg[q]));
                            } else {
                                assert(pre[q] is Some);
                                if !placed_in_groups(gv, reg[q]) {
                                    assert(placed_excl_before(ev, e as int, reg[q]));
                                    let e1 = choose|e1: int|
                                        0 <= e1 < e && (#[trigger] ev[e1]).name == reg[q];
                                    assert(placed_excl_before(ev, e as int + 1, reg[q]));
                                }
                            }
                        }
                        assert forall|e1: int, e2: int| 0 <= e1 < e2 < e + 1 implies (
                        #[trigger] ev[e1]).name != (#[trigger] ev[e2]).name by {
                            if e2 == e && ev[e1].name == ev[e as int].name {
                                assert(exclusive_slot_ok(reg, ev, pre, e1));
                                assert(pre[id_of(reg, ev[e1].name)] is Some);
                                assert(id_of(reg, ev[e1].name) == cid.id as int);
                                assert(false);
                            }
                        }
                        assert forall|g1: int, k1: int, e1: int|
                            #![trigger gv[g1].components[k1], ev[e1].name]
                            0 <= g1 < gv.len() && 0 <= k1 < gv[g1].components.len() && 0 <= e1 < e
                                + 1 implies gv[g1].components[k1] != ev[e1].name by {
                            if e1 == e && gv[g1].components[k1] == ev[e as int].name {
                                assert(group_slot_ok(reg, gv, pre, g1, k1));
                                assert(pre[id_of(reg, gv[g1].components[k1])] is Some);
                                assert(id_of(reg, gv[g1].components[k1]) == cid.id as int);
                                assert(false);
                            }
                        }
                        assert(ev.subrange(0, e + 1).drop_last() =~= ev.subrange(0, e as int));
                        assert(ev.subrange(0, e + 1).last() == ev[e as int]);
                        if exclusive_warns(ev[e as int]) {
                            assert(warning_views(warns@) =~= warning_views(wpre).push(
                                warning_of(ev[e as int]),
                            ));
                        } else {
                            assert(warns@ == wpre);
                        }
                        assert(warning_views(warns@) =~= expected_warnings(ev.subrange(0, e + 1)));
                    }
                },
            }
            e += 1;
        }
        proof {
            assert(ev.subrange(0, nexcl as int) =~= ev);
        }

        // Merge: every registry component must have received exactly one
        // address; a hole is invalid state from an earlier pass.
        let mut baseaddrs: Vec<u64> = Vec::new();
        let mut i: usize = 0;
        while i < n
            invariant
                i <= n,
                slots@.len() == n,
                baseaddrs@.len() == i,
                forall|q: int| 0 <= q < i ==> slots@[q] == Some(#[trigger] baseaddrs@[q]),
            decreases n - i,
        {
            match slots[i] {
                Some(a) => {
                    baseaddrs.push(a);
                },
                None => {
                    proof {
                        assert(reg[i as int] == registry@[i as int]);
                        if placed_in_groups(gv, reg[i as int]) {
                            let (g1, k1) = choose|g1: int, k1: int|
                                0 <= g1 < gv.len() && 0 <= k1 < gv[g1].components.len()
                                    && #[trigger] gv[g1].components[k1] == reg[i as int];
                            assert(group_slot_ok(reg, gv, slots@, g1, k1));
                            lemma_id_of(reg, reg[i as int]);
                            assert(false);
                        }
                        if placed_exclusive(ev, reg[i as int]) {
                            let e1 = choose|e1: int|
                                0 <= e1 < ev.len() && (#[trigger] ev[e1]).name == reg[i as int];
                            assert(exclusive_slot_ok(reg, ev, slots@, e1));
                            lemma_id_of(reg, reg[i as int]);
                            assert(false);
                        }
                        assert(has_name(reg, reg[i as int]));
                    }
                    return Err(
                        AssignError::UnplacedComponent { name: registry.name_at(i).clone() },
                    );
                },
            }
            i += 1;
        }

        proof {
            assert forall|g1: int, k1: int|
                0 <= g1 < gv.len() && 0 <= k1 < gv[g1].components.len()
                    implies #[trigger] group_component_addr_ok(reg, gv, baseaddrs@, g1, k1) by {
                assert(group_slot_ok(reg, gv, slots@, g1, k1));
                lemma_group_range_bounded(gv, g1);
                let id = id_of(reg, gv[g1].components[k1]);
                assert(slots@[id] == Some(baseaddrs@[id]));
            }
            assert forall|e1: int| 0 <= e1 < ev.len() implies #[trigger] exclusive_addr_ok(
                reg,
                ev,
                baseaddrs@,
                e1,
            ) by {
                assert(exclusive_slot_ok(reg, ev, slots@, e1));
                let id = id_of(reg, ev[e1].name);
                assert(slots@[id] == Some(baseaddrs@[id]));
            }
            assert forall|q: int| 0 <= q < reg.len() implies placed_in_groups(
                gv,
                #[trigger] reg[q],
            ) || placed_exclusive(ev, reg[q]) by {
                assert(slots@[q] == Some(baseaddrs@[q]));
                if !placed_in_groups(gv, reg[q]) {
                    assert(placed_excl_before(ev, nexcl as int, reg[q]));
                }
            }
            assert(covers_registry(reg, gv, ev));
            assert forall|g1: int, k1: int|
                0 <= g1 < gv.len() && 0 <= k1 < gv[g1].components.len() implies has_name(
                reg,
                #[trigger] gv[g1].components[k1],
            ) by {
                assert(group_slot_ok(reg, gv, slots@, g1, k1));
            }
            assert(group_names_resolve(reg, gv));
            assert forall|e1: int| 0 <= e1 < ev.len() implies has_name(
                reg,
                (#[trigger] ev[e1]).name,
            ) by {
                assert(exclusive_slot_ok(reg, ev, slots@, e1));
            }
            assert(exclusive_names_resolve(reg, ev));
            assert(parents_resolve(gv));
            assert forall|g1: int, k1: int, g2: int, k2: int|
                #![trigger gv[g1].components[k1], gv[g2].components[k2]]
                0 <= g1 < gv.len() && 0 <= k1 < gv[g1].components.len() && 0 <= g2 < gv.len() && 0
                    <= k2 < gv[g2].components.len() && (g1 != g2 || k1 != k2) implies gv[
            g1].components[k1] != gv[g2].components[k2] by {
                assert(pos_before(g1, k1, ngroups as int, 0));
                assert(pos_before(g2, k2, ngroups as int, 0));
            }
            assert(placements_unique(gv, ev));
            assert(conforms(reg, gv, ev, baseaddrs@));
        }
        Ok((AddressAssignmentx86_64 { baseaddrs }, warns))
    }
}

/// Checks that the shared groups fit the 64-bit address budget: the machine
/// limit [`AddressAssignmentx86_64::transition`] requires of its callers.
pub fn capacity_within_bounds(groups: &Vec<AddressSpaceGroup>) -> (ok: bool)
    ensures
        ok == (BASE_OFFSET + total_slots(groups_of(groups@)) * SLOT_SIZE <= u64::MAX),
{
    let ghost gv = groups_of(groups@);
    let budget: u64 = (u64::MAX - BASE_OFFSET) / SLOT_SIZE;
    let mut sum: u64 = 0;
    let ngroups = groups.len();
    let mut g: usize = 0;
    while g < ngroups
        invariant
            gv == groups_of(groups@),
            ngroups == gv.len(),
            g <= ngroups,
            budget == (u64::MAX - BASE_OFFSET) as int / (SLOT_SIZE as int),
            sum <= budget,
            sum == slots_upto(gv, g as int),
        decreases ngroups - g,
    {
        proof {
            assert(gv[g as int] == groups@[g as int]@);
        }
        let len = groups[g].components.len();
        if len as u64 > budget - sum {
            proof {
                lemma_fundamental_div_mod((u64::MAX - BASE_OFFSET) as int, SLOT_SIZE as int);
                lemma_slots_upto_monotone(gv, g as int + 1, ngroups as int);
                assert(slots_upto(gv, g as int + 1) > budget);
            }
            return false;
        }
        sum = sum + len as u64;
        g += 1;
    }
    proof {
        lemma_fundamental_div_mod((u64::MAX - BASE_OFFSET) as int, SLOT_SIZE as int);
    }
    sum <= budget
}

/// In a group without a parent, the first component's assigned address is
/// exactly `BASE_OFFSET`.
pub proof fn lemma_root_group_first_address(
    reg: Seq<Seq<char>>,
    groups: Seq<GroupView>,
    excl: Seq<ExclusiveView>,
    a: Seq<u64>,
    g: int,
)
    requires
        conforms(reg, groups, excl, a),
        0 <= g < groups.len(),
        groups[g].parent is None,
        groups[g].components.len() > 0,
    ensures
        a[id_of(reg, groups[g].components[0])] == BASE_OFFSET,
{
    assert(group_component_addr_ok(reg, groups, a, g, 0));
}

/// Within one group, consecutive components' addresses differ by exactly
/// `SLOT_SIZE`.
pub proof fn lemma_group_addresses_stride(
    reg: Seq<Seq<char>>,
    groups: Seq<GroupView>,
    excl: Seq<ExclusiveView>,
    a: Seq<u64>,
    g: int,
    k: int,
)
    requires
        conforms(reg, groups, excl, a),
        0 <= g < groups.len(),
        0 <= k,
        k + 1 < groups[g].components.len(),
    ensures
        a[id_of(reg, groups[g].components[k + 1])] == a[id_of(reg, groups[g].components[k])]
            + SLOT_SIZE,
{
    assert(group_component_addr_ok(reg, groups, a, g, k));
    assert(group_component_addr_ok(reg, groups, a, g, k + 1));
    assert((k + 1) * (SLOT_SIZE as int) == k * (SLOT_SIZE as int) + (SLOT_SIZE as int));
}

/// Within one group, no two components share an address.
pub proof fn lemma_group_addresses_distinct(
    reg: Seq<Seq<char>>,
    groups: Seq<GroupView>,
    excl: Seq<ExclusiveView>,
    a: Seq<u64>,
    g: int,
    k1: int,
    k2: int,
)
    requires
        conforms(reg, groups, excl, a),
        0 <= g < groups.len(),
        0 <= k1 < groups[g].components.len(),
        0 <= k2 < groups[g].components.len(),
        k1 != k2,
    ensures
        a[id_of(reg, groups[g].components[k1])] != a[id_of(reg, groups[g].components[k2])],
{
    assert(group_component_addr_ok(reg, groups, a, g, k1));
    assert(group_component_addr_ok(reg, groups, a, g, k2));
    assert(k1 * (SLOT_SIZE as int) != k2 * (SLOT_SIZE as int));
}

/// A child group's first address is exactly where the parent group's range
/// ends: the parent's last component's address plus `SLOT_SIZE`.
pub proof fn lemma_child_group_continues_parent(
    reg: Seq<Seq<char>>,
    groups: Seq<GroupView>,
    excl: Seq<ExclusiveView>,
    a: Seq<u64>,
    g: int,
    parent: Seq<char>,
    j: int,
)
    requires
        conforms(reg, groups, excl, a),
        0 <= g < groups.len(),
        groups[g].parent == Some(parent),
        last_group_named(groups, g, parent) == Some(j),
        groups[g].components.len() > 0,
        0 <= j < groups.len() && groups[j].components.len() > 0,
    ensures
        a[id_of(reg, groups[g].components[0])] == a[id_of(
            reg,
            groups[j].components[groups[j].components.len() - 1],
        )] + SLOT_SIZE,
{
    lemma_last_group_named(groups, g, parent);
    let last = groups[j].components.len() - 1;
    assert(group_component_addr_ok(reg, groups, a, g, 0));
    assert(group_component_addr_ok(reg, groups, a, j, last));
    assert(group_start(groups, g)->0 == group_start(groups, j)->0 + groups[j].components.len() * (
    SLOT_SIZE as int));
    assert(groups[j].components.len() * (SLOT_SIZE as int) == last * (SLOT_SIZE as int) + (
    SLOT_SIZE as int));
}

/// An exclusive component's address: the default base offset without an
/// override or with a malformed one, the parsed value with a well-formed one.
pub proof fn lemma_exclusive_address(
    reg: Seq<Seq<char>>,
    groups: Seq<GroupView>,
    excl: Seq<ExclusiveView>,
    a: Seq<u64>,
    e: int,
)
    requires
        conforms(reg, groups, excl, a),
        0 <= e < excl.len(),
    ensures
        a[id_of(reg, excl[e].name)] == exclusive_addr(excl[e]),
        excl[e].base_vaddr is None ==> a[id_of(reg, excl[e].name)] == BASE_OFFSET,
        forall|sv: Seq<char>, v: u64|
            excl[e].base_vaddr == Some(sv) && parse_hex_override(sv) == Some(v) ==> a[id_of(
                reg,
                excl[e].name,
            )] == v,
        exclusive_warns(excl[e]) ==> a[id_of(reg, excl[e].name)] == BASE_OFFSET,
{
    assert(exclusive_addr_ok(reg, excl, a, e));
}

/// A malformed override draws a warning: the returned warning list holds an
/// entry naming the component (and the build goes on, see the success
/// condition of [`AddressAssignmentx86_64::transition`]).
pub proof fn lemma_malformed_override_warns(excl: Seq<ExclusiveView>, e: int)
    requires
        0 <= e < excl.len(),
        exclusive_warns(excl[e]),
    ensures
        exists|w: int|
            0 <= w < expected_warnings(excl).len() && #[trigger] expected_warnings(excl)[w]
                == warning_of(excl[e]),
    decreases excl.len(),
{
    if e == excl.len() - 1 {
        let ws = expected_warnings(excl);
        assert(ws[ws.len() - 1] == warning_of(excl[e]));
    } else {
        lemma_malformed_override_warns(excl.drop_last(), e);
        let wpre = expected_warnings(excl.drop_last());
        let w = choose|w: int|
            0 <= w < wpre.len() && #[trigger] wpre[w] == warning_of(excl.drop_last()[e]);
        assert(expected_warnings(excl)[w] == warning_of(excl[e]));
    }
}

/// The assignment is a function of its inputs: any two conforming total
/// assignments for the same registry and grouping are equal, so two runs of
/// the pass on the same inputs agree address for address.
pub proof fn lemma_assignment_deterministic(
    reg: Seq<Seq<char>>,
    groups: Seq<GroupView>,
    excl: Seq<ExclusiveView>,
    a1: Seq<u64>,
    a2: Seq<u64>,
)
    requires
        names_unique(reg),
        covers_registry(reg, groups, excl),
        conforms(reg, groups, excl, a1),
        conforms(reg, groups, excl, a2),
    ensures
        a1 == a2,
{
    assert forall|q: int| 0 <= q < reg.len() implies a1[q] == a2[q] by {
        lemma_id_of(reg, reg[q]);
        if placed_in_groups(groups, reg[q]) {
            let (g1, k1) = choose|g1: int, k1: int|
                0 <= g1 < groups.len() && 0 <= k1 < groups[g1].components.len()
                    && #[trigger] groups[g1].components[k1] == reg[q];
            assert(group_component_addr_ok(reg, groups, a1, g1, k1));
            assert(group_component_addr_ok(reg, groups, a2, g1, k1));
        } else {
            assert(placed_exclusive(excl, reg[q]));
            let e1 = choose|e1: int|
                0 <= e1 < excl.len() && (#[trigger] excl[e1]).name == reg[q];
            assert(exclusive_addr_ok(reg, excl, a1, e1));
            assert(exclusive_addr_ok(reg, excl, a2, e1));
        }
    }
    assert(a1 =~= a2);
}

/// The runtime form of the self-check the pass performs at initialization; it
/// is proved always to pass, so a violation of the architectural constants
/// cannot reach a build.
pub fn slot_size_self_check() -> (ok: bool)
    ensures
        ok,
{
    let geometric: u64 = 512 * 512 * 512 * 4096;
    assert((1u64 << 48) == 0x1_0000_0000_0000u64) by (bit_vector);
    assert((1u64 << 9) == 512u64) by (bit_vector);
    let budget: u64 = (1u64 << 48) / (1u64 << 9);
    geometric == budget && geometric == SLOT_SIZE
}

} // verus!
