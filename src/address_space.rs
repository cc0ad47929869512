//! Nodes of the address space: a fixed table of 22 attributes per node, typed writes,
//! and the node kinds.
use vstd::prelude::*;
use crate::basic::{QualifiedName, LocalizedText};
use crate::node_id::NodeId;
use crate::string::UaString;
use crate::variant::{Variant, VariantView, DataValue, DataValueView, ArrayItem, good_value_at};
use crate::status::StatusCode;
use vstd::string::StringSliceAdditionalSpecFns;

verus! {

/// The count of attribute identifiers, and so the size of every node's table.
pub const NUM_ATTRIBUTES: usize = 22;

/// The standard attributes, numbered 1 to 22 in this order.
#[derive(Debug, Clone, Copy, PartialEq, Eq, Structural, Hash)]
pub enum AttributeId {
    NodeId,
    NodeClass,
    BrowseName,
    DisplayName,
    Description,
    WriteMask,
    UserWriteMask,
    IsAbstract,
    Symmetric,
    InverseName,
    ContainsNoLoops,
    EventNotifier,
    Value,
    DataType,
    ValueRank,
    ArrayDimensions,
    AccessLevel,
    UserAccessLevel,
    MinimumSamplingInterval,
    Historizing,
    Executable,
    UserExecutable,
}

/// The wire number of an attribute.
pub open spec fn attribute_number(a: AttributeId) -> nat {
    match a {
        AttributeId::NodeId => 1,
        AttributeId::NodeClass => 2,
        AttributeId::BrowseName => 3,
        AttributeId::DisplayName => 4,
        AttributeId::Description => 5,
        AttributeId::WriteMask => 6,
        AttributeId::UserWriteMask => 7,
        AttributeId::IsAbstract => 8,
        AttributeId::Symmetric => 9,
        AttributeId::InverseName => 10,
        AttributeId::ContainsNoLoops => 11,
        AttributeId::EventNotifier => 12,
        AttributeId::Value => 13,
        AttributeId::DataType => 14,
        AttributeId::ValueRank => 15,
        AttributeId::ArrayDimensions => 16,
        AttributeId::AccessLevel => 17,
        AttributeId::UserAccessLevel => 18,
        AttributeId::MinimumSamplingInterval => 19,
        AttributeId::Historizing => 20,
        AttributeId::Executable => 21,
        AttributeId::UserExecutable => 22,
    }
}

pub open spec fn slot_of(a: AttributeId) -> int {
    attribute_number(a) - 1
}

impl AttributeId {
    /// The slot of the attribute in a node's table: its number less one.
    pub fn attribute_idx(self) -> (r: usize)
        ensures
            r == slot_of(self),
    {
        match self {
            AttributeId::NodeId => 0,
            AttributeId::NodeClass => 1,
            AttributeId::BrowseName => 2,
            AttributeId::DisplayName => 3,
            AttributeId::Description => 4,
            AttributeId::WriteMask => 5,
            AttributeId::UserWriteMask => 6,
            AttributeId::IsAbstract => 7,
            AttributeId::Symmetric => 8,
            AttributeId::InverseName => 9,
            AttributeId::ContainsNoLoops => 10,
            AttributeId::EventNotifier => 11,
            AttributeId::Value => 12,
            AttributeId::DataType => 13,
            AttributeId::ValueRank => 14,
            AttributeId::ArrayDimensions => 15,
            AttributeId::AccessLevel => 16,
            AttributeId::UserAccessLevel => 17,
            AttributeId::MinimumSamplingInterval => 18,
            AttributeId::Historizing => 19,
            AttributeId::Executable => 20,
            AttributeId::UserExecutable => 21,
        }
    }

    /// The attribute with wire number `n`, or `BadAttributeIdInvalid`.
    pub fn from_u32(n: u32) -> (r: Result<AttributeId, StatusCode>)
        ensures
            r matches Ok(a) ==> attribute_number(a) == n,
            r is Err <==> !(1 <= n <= 22),
            r matches Err(e) ==> e == StatusCode::BadAttributeIdInvalid,
    {
        match n {
            1 => Ok(AttributeId::NodeId),
            2 => Ok(AttributeId::NodeClass),
            3 => Ok(AttributeId::BrowseName),
            4 => Ok(AttributeId::DisplayName),
            5 => Ok(AttributeId::Description),
            6 => Ok(AttributeId::WriteMask),
            7 => Ok(AttributeId::UserWriteMask),
            8 => Ok(AttributeId::IsAbstract),
            9 => Ok(AttributeId::Symmetric),
            10 => Ok(AttributeId::InverseName),
            11 => Ok(AttributeId::ContainsNoLoops),
            12 => Ok(AttributeId::EventNotifier),
            13 => Ok(AttributeId::Value),
            14 => Ok(AttributeId::DataType),
            15 => Ok(AttributeId::ValueRank),
            16 => Ok(AttributeId::ArrayDimensions),
            17 => Ok(AttributeId::AccessLevel),
            18 => Ok(AttributeId::UserAccessLevel),
            19 => Ok(AttributeId::MinimumSamplingInterval),
            20 => Ok(AttributeId::Historizing),
            21 => Ok(AttributeId::Executable),
            22 => Ok(AttributeId::UserExecutable),
            _ => Err(StatusCode::BadAttributeIdInvalid),
        }
    }
}

/// The kind of a node.
#[derive(Debug, Clone, Copy, PartialEq, Eq, Structural)]
pub enum NodeClass {
    Object,
    Variable,
    Method,
    ObjectType,
    VariableType,
    ReferenceType,
    DataType,
    View,
}

pub open spec fn node_class_value(c: NodeClass) -> i32 {
    match c {
        NodeClass::Object => 1,
        NodeClass::Variable => 2,
        NodeClass::Method => 4,
        NodeClass::ObjectType => 8,
        NodeClass::VariableType => 16,
        NodeClass::ReferenceType => 32,
        NodeClass::DataType => 64,
        NodeClass::View => 128,
    }
}

pub open spec fn is_node_class_value(x: i32) -> bool {
    exists|c: NodeClass| node_class_value(c) == x
}

impl NodeClass {
    pub fn value(self) -> (r: i32)
        ensures
            r == node_class_value(self),
    {
        match self {
            NodeClass::Object => 1,
            NodeClass::Variable => 2,
            NodeClass::Method => 4,
            NodeClass::ObjectType => 8,
            NodeClass::VariableType => 16,
            NodeClass::ReferenceType => 32,
            NodeClass::DataType => 64,
            NodeClass::View => 128,
        }
    }

    /// The class with this value, if there is one.
    pub fn from_i32(x: i32) -> (r: Option<NodeClass>)
        ensures
            r matches Some(c) ==> node_class_value(c) == x,
            r is None ==> !is_node_class_value(x),
    {
        match x {
            1 => Some(NodeClass::Object),
            2 => Some(NodeClass::Variable),
            4 => Some(NodeClass::Method),
            8 => Some(NodeClass::ObjectType),
            16 => Some(NodeClass::VariableType),
            32 => Some(NodeClass::ReferenceType),
            64 => Some(NodeClass::DataType),
            128 => Some(NodeClass::View),
            _ => None,
        }
    }
}

// ---------------------------------------------------------------- typed writes

/// The value kind that a write of attribute `id` must carry.
pub open spec fn kind_ok(id: AttributeId, v: VariantView) -> bool {
    match id {
        AttributeId::BrowseName => v is String,
        AttributeId::DisplayName | AttributeId::Description | AttributeId::InverseName => v is LocalizedText,
        AttributeId::WriteMask | AttributeId::UserWriteMask => v is UInt32,
        AttributeId::IsAbstract | AttributeId::Symmetric | AttributeId::ContainsNoLoops
        | AttributeId::Historizing | AttributeId::Executable | AttributeId::UserExecutable => v is Boolean,
        AttributeId::EventNotifier | AttributeId::AccessLevel | AttributeId::UserAccessLevel => v is Byte,
        AttributeId::DataType => v is NodeId,
        AttributeId::ValueRank => v is Int32,
        AttributeId::ArrayDimensions => match v {
            VariantView::Array(items) => forall|i: int|
                0 <= i < items.len() ==> #[trigger] items[i] is UInt32,
            _ => false,
        },
        AttributeId::MinimumSamplingInterval => v is Double,
        _ => true,
    }
}

/// Whether a write of `v` to attribute `id` is accepted, and if not, why.
pub open spec fn check_write(id: AttributeId, v: DataValueView) -> Result<(), StatusCode> {
    match id {
        AttributeId::NodeId | AttributeId::NodeClass => Err(StatusCode::BadNotWritable),
        AttributeId::Value => Ok(()),
        _ => match v.value {
            Some(x) => if kind_ok(id, x) {
                Ok(())
            } else {
                Err(StatusCode::BadTypeMismatch)
            },
            None => Err(StatusCode::BadTypeMismatch),
        },
    }
}

fn all_uint32(items: &Vec<ArrayItem>) -> (r: bool)
    ensures
        r == forall|i: int| 0 <= i < items@.len() ==> #[trigger] items@[i] is UInt32,
{
    let mut i: usize = 0;
    while i < items.len()
        invariant
            i <= items@.len(),
            forall|j: int| 0 <= j < i ==> #[trigger] items@[j] is UInt32,
        decreases items@.len() - i,
    {
        match &items[i] {
            ArrayItem::UInt32(_) => {},
            _ => return false,
        }
        i = i + 1;
    }
    true
}

/// Checks a write of `value` to attribute `id` against the attribute type table.
pub fn validate_write(id: AttributeId, value: &DataValue) -> (r: Result<(), StatusCode>)
    ensures
        r == check_write(id, value@),
{
    match id {
        AttributeId::NodeId | AttributeId::NodeClass => return Err(StatusCode::BadNotWritable),
        AttributeId::Value => return Ok(()),
        _ => {},
    }
    let v = match &value.value {
        Some(v) => v,
        None => return Err(StatusCode::BadTypeMismatch),
    };
    let ok = match id {
        AttributeId::BrowseName => matches!(v, Variant::String(_)),
        AttributeId::DisplayName | AttributeId::Description | AttributeId::InverseName => matches!(v, Variant::LocalizedText(_)),
        AttributeId::WriteMask | AttributeId::UserWriteMask => matches!(v, Variant::UInt32(_)),
        AttributeId::IsAbstract | AttributeId::Symmetric | AttributeId::ContainsNoLoops
        | AttributeId::Historizing | AttributeId::Executable | AttributeId::UserExecutable => matches!(v, Variant::Boolean(_)),
        AttributeId::EventNotifier | AttributeId::AccessLevel | AttributeId::UserAccessLevel => matches!(v, Variant::Byte(_)),
        AttributeId::DataType => matches!(v, Variant::NodeId(_)),
        AttributeId::ValueRank => matches!(v, Variant::Int32(_)),
        AttributeId::ArrayDimensions => match v {
            Variant::Array(items) => all_uint32(items),
            _ => false,
        },
        AttributeId::MinimumSamplingInterval => matches!(v, Variant::Double(_)),
        _ => true,
    };
    if ok {
        Ok(())
    } else {
        Err(StatusCode::BadTypeMismatch)
    }
}


// ---------------------------------------------------------------- Base

pub open spec fn dv_view(o: Option<DataValue>) -> Option<DataValueView> {
    match o {
        Some(d) => Some(d@),
        None => None,
    }
}

pub open spec fn ref_view(o: Option<&DataValue>) -> Option<DataValueView> {
    match o {
        Some(d) => Some(d@),
        None => None,
    }
}

pub open spec fn value_of(o: Option<DataValueView>) -> Option<VariantView> {
    match o {
        Some(d) => d.value,
        None => None,
    }
}

/// The attributes every node carries, each present with a value of its type.
pub open spec fn mandatory_ok(slots: Seq<Option<DataValueView>>) -> bool {
    &&& value_of(slots[slot_of(AttributeId::NodeClass)]) matches Some(VariantView::Int32(x))
        && is_node_class_value(x)
    &&& value_of(slots[slot_of(AttributeId::NodeId)]) matches Some(VariantView::NodeId(_))
    &&& value_of(slots[slot_of(AttributeId::BrowseName)]) matches Some(v) && (v is String
        || v is QualifiedName)
    &&& value_of(slots[slot_of(AttributeId::DisplayName)]) matches Some(VariantView::LocalizedText(_))
}

/// What a successful write leaves: the attribute's slot holds the new value.
pub open spec fn after_write(
    slots: Seq<Option<DataValueView>>,
    id: AttributeId,
    v: DataValueView,
) -> Seq<Option<DataValueView>> {
    if check_write(id, v) is Ok {
        slots.update(slot_of(id), Some(v))
    } else {
        slots
    }
}

/// The shared part of every node: a table of 22 attribute slots.
pub struct Base {
    attributes: Vec<Option<DataValue>>,
}

impl Base {
    /// The attribute table, slot `i` holding attribute number `i + 1`.
    pub closed spec fn slots(&self) -> Seq<Option<DataValueView>> {
        self.attributes@.map_values(|o: Option<DataValue>| dv_view(o))
    }

    pub closed spec fn wf(&self) -> bool {
        &&& self.attributes@.len() == NUM_ATTRIBUTES
        &&& mandatory_ok(self.slots())
    }

    /// The value of an attribute, from its slot.
    pub fn find_attribute(&self, id: AttributeId) -> (r: Option<&DataValue>)
        requires
            self.wf(),
        ensures
            ref_view(r) == self.slots()[slot_of(id)],
    {
        let idx = id.attribute_idx();
        match &self.attributes[idx] {
            Some(dv) => Some(dv),
            None => None,
        }
    }

    /// Writes an attribute after checking its value against the attribute type table:
    /// NodeId and NodeClass are `BadNotWritable`, a value of the wrong type is
    /// `BadTypeMismatch` and leaves the node as it was.
    pub fn set_attribute(&mut self, id: AttributeId, value: DataValue) -> (r: Result<
        (),
        StatusCode,
    >)
        requires
            old(self).wf(),
        ensures
            final(self).wf(),
            r == check_write(id, value@),
            final(self).slots() == after_write(old(self).slots(), id, value@),
    {
        match validate_write(id, &value) {
            Err(e) => Err(e),
            Ok(()) => {
                let idx = id.attribute_idx();
                let ghost v = value@;
                self.attributes.set(idx, Some(value));
                assert(self.slots() =~= old(self).slots().update(slot_of(id), Some(v)));
                Ok(())
            },
        }
    }

    /// Writes `value` with status Good and the given timestamps.
    pub fn set_attribute_value(
        &mut self,
        id: AttributeId,
        value: Variant,
        server_timestamp: i64,
        source_timestamp: i64,
    ) -> (r: Result<(), StatusCode>)
        requires
            old(self).wf(),
        ensures
            final(self).wf(),
            ({
                let dv = DataValueView {
                    value: Some(value@),
                    status: Some(StatusCode::Good),
                    server_timestamp: Some(server_timestamp),
                    server_picoseconds: Some(0),
                    source_timestamp: Some(source_timestamp),
                    source_picoseconds: Some(0),
                };
                &&& r == check_write(id, dv)
                &&& final(self).slots() == after_write(old(self).slots(), id, dv)
            }),
    {
        self.set_attribute(
            id,
            DataValue {
                value: Some(value),
                status: Some(StatusCode::Good),
                server_timestamp: Some(server_timestamp),
                server_picoseconds: Some(0),
                source_timestamp: Some(source_timestamp),
                source_picoseconds: Some(0),
            },
        )
    }

    /// The node's class.
    pub fn node_class(&self) -> (r: NodeClass)
        requires
            self.wf(),
        ensures
            value_of(self.slots()[slot_of(AttributeId::NodeClass)]) == Some(
                VariantView::Int32(node_class_value(r)),
            ),
    {
        let x = match &self.attributes[1] {
            Some(dv) => match &dv.value {
                Some(Variant::Int32(x)) => *x,
                _ => 0,
            },
            None => 0,
        };
        assert(value_of(self.slots()[1]) == Some(VariantView::Int32(x)));
        match NodeClass::from_i32(x) {
            Some(c) => c,
            None => NodeClass::Object,
        }
    }

    /// The node's identifier.
    pub fn node_id(&self) -> (r: &NodeId)
        requires
            self.wf(),
        ensures
            value_of(self.slots()[slot_of(AttributeId::NodeId)]) == Some(VariantView::NodeId(r@)),
    {
        match &self.attributes[0] {
            Some(dv) => match &dv.value {
                Some(Variant::NodeId(n)) => n,
                _ => {
                    assert(false);
                    unreached()
                },
            },
            None => {
                assert(false);
                unreached()
            },
        }
    }

    /// The write mask, when the node has one.
    pub fn write_mask(&self) -> (r: Option<u32>)
        requires
            self.wf(),
        ensures
            forall|m: u32|
                r == Some(m) <==> value_of(self.slots()[slot_of(AttributeId::WriteMask)]) == Some(
                    VariantView::UInt32(m),
                ),
    {
        match &self.attributes[5] {
            Some(dv) => match &dv.value {
                Some(Variant::UInt32(m)) => Some(*m),
                _ => None,
            },
            None => None,
        }
    }

    /// Sets the write mask, stamped `now`; a UInt32 is always accepted there.
    pub fn set_write_mask(&mut self, write_mask: u32, now: i64)
        requires
            old(self).wf(),
        ensures
            final(self).wf(),
            final(self).slots() == old(self).slots().update(
                slot_of(AttributeId::WriteMask),
                Some(good_value_at(VariantView::UInt32(write_mask), now)),
            ),
    {
        let _ = self.set_attribute(AttributeId::WriteMask, DataValue::new_at(Variant::UInt32(write_mask), now));
    }
}


// ---------------------------------------------------------------- construction

pub open spec fn entry_views(e: Seq<(AttributeId, Variant)>) -> Seq<(AttributeId, VariantView)> {
    e.map_values(|p: (AttributeId, Variant)| (p.0, p.1@))
}

/// The value that the last entry for slot `j` gives, if any entry does.
pub open spec fn last_assigned(entries: Seq<(AttributeId, VariantView)>, j: int) -> Option<
    VariantView,
>
    decreases entries.len(),
{
    if entries.len() == 0 {
        None
    } else if slot_of(entries.last().0) == j {
        Some(entries.last().1)
    } else {
        last_assigned(entries.drop_last(), j)
    }
}

/// The table that applying `entries` in order to an empty table gives.
pub open spec fn initial_slots(entries: Seq<(AttributeId, VariantView)>, now: i64) -> Seq<
    Option<DataValueView>,
> {
    Seq::new(
        NUM_ATTRIBUTES as nat,
        |j: int|
            match last_assigned(entries, j) {
                Some(v) => Some(good_value_at(v, now)),
                None => None,
            },
    )
}

/// The attributes that the class, identifier and names give every node.
pub open spec fn mandatory_entries(
    class: NodeClass,
    node_id: crate::node_id::NodeIdView,
    browse_name: Seq<u8>,
    display_name: Seq<u8>,
    description: Seq<u8>,
) -> Seq<(AttributeId, VariantView)> {
    seq![
        (AttributeId::NodeClass, VariantView::Int32(node_class_value(class))),
        (AttributeId::NodeId, VariantView::NodeId(node_id)),
        (
            AttributeId::DisplayName,
            VariantView::LocalizedText(
                crate::basic::LocalizedTextView { locale: None, text: Some(display_name) },
            ),
        ),
        (
            AttributeId::BrowseName,
            VariantView::QualifiedName(
                crate::basic::QualifiedNameView { namespace_index: 0, name: Some(browse_name) },
            ),
        ),
        (
            AttributeId::Description,
            VariantView::LocalizedText(
                crate::basic::LocalizedTextView { locale: None, text: Some(description) },
            ),
        ),
        (AttributeId::WriteMask, VariantView::UInt32(0)),
        (AttributeId::UserWriteMask, VariantView::UInt32(0)),
    ]
}

/// NodeClass, NodeId, BrowseName and DisplayName: set from the constructor's arguments.
pub open spec fn is_core(a: AttributeId) -> bool {
    a == AttributeId::NodeClass || a == AttributeId::NodeId || a == AttributeId::BrowseName || a
        == AttributeId::DisplayName
}

pub proof fn lemma_last_assigned_skip(
    m: Seq<(AttributeId, VariantView)>,
    x: Seq<(AttributeId, VariantView)>,
    j: int,
)
    requires
        forall|k: int| 0 <= k < x.len() ==> slot_of(#[trigger] x[k].0) != j,
    ensures
        last_assigned(m + x, j) == last_assigned(m, j),
    decreases x.len(),
{
    if x.len() == 0 {
        assert(m + x =~= m);
    } else {
        assert((m + x).drop_last() =~= m + x.drop_last());
        assert((m + x).last() == x[x.len() - 1]);
        lemma_last_assigned_skip(m, x.drop_last(), j);
    }
}

pub proof fn lemma_initial_slots_step(entries: Seq<(AttributeId, VariantView)>, i: int, now: i64)
    requires
        0 <= i < entries.len(),
    ensures
        initial_slots(entries.take(i + 1), now) == initial_slots(entries.take(i), now).update(
            slot_of(entries[i].0),
            Some(good_value_at(entries[i].1, now)),
        ),
{
    assert(entries.take(i + 1).drop_last() =~= entries.take(i));
    assert(initial_slots(entries.take(i + 1), now) =~= initial_slots(entries.take(i), now).update(
        slot_of(entries[i].0),
        Some(good_value_at(entries[i].1, now)),
    ));
}

pub proof fn lemma_initial_mandatory(
    m: Seq<(AttributeId, VariantView)>,
    x: Seq<(AttributeId, VariantView)>,
    now: i64,
    class: NodeClass,
    node_id: crate::node_id::NodeIdView,
    browse_name: Seq<u8>,
    display_name: Seq<u8>,
    description: Seq<u8>,
)
    requires
        m == mandatory_entries(class, node_id, browse_name, display_name, description),
        forall|k: int| 0 <= k < x.len() ==> !is_core(#[trigger] x[k].0),
    ensures
        mandatory_ok(initial_slots(m + x, now)),
{
    assert forall|j: int| 0 <= j < 4 implies last_assigned(m + x, j) == last_assigned(m, j) by {
        assert forall|k: int| 0 <= k < x.len() implies slot_of(#[trigger] x[k].0) != j by {
            assert(!is_core(x[k].0));
        }
        lemma_last_assigned_skip(m, x, j);
    }
    reveal_with_fuel(last_assigned, 8);
    assert(last_assigned(m, 0) is Some);
    assert(last_assigned(m, 1) == Some(VariantView::Int32(node_class_value(class))));
    assert(last_assigned(m, 2) is Some);
    assert(last_assigned(m, 3) is Some);
    let slots = initial_slots(m + x, now);
    assert(slots[1] == Some(good_value_at(VariantView::Int32(node_class_value(class)), now)));
    assert(is_node_class_value(node_class_value(class)));
}

impl Base {
    /// A node's table: the mandatory attributes from the arguments, then `attributes`
    /// in order, a later entry for the same attribute replacing an earlier one; every
    /// value has status Good and timestamps `now`.
    #[verifier::rlimit(60)]
    pub fn new_at(
        node_class: NodeClass,
        node_id: &NodeId,
        browse_name: &str,
        display_name: &str,
        description: &str,
        attributes: Vec<(AttributeId, Variant)>,
        now: i64,
    ) -> (r: Base)
        requires
            forall|k: int| 0 <= k < attributes@.len() ==> !is_core(#[trigger] attributes@[k].0),
        ensures
            r.wf(),
            r.slots() == initial_slots(
                mandatory_entries(
                    node_class,
                    node_id@,
                    browse_name.spec_bytes(),
                    display_name.spec_bytes(),
                    description.spec_bytes(),
                ) + entry_views(attributes@),
                now,
            ),
    {
        let mut all: Vec<(AttributeId, Variant)> = Vec::new();
        all.push((AttributeId::NodeClass, Variant::Int32(node_class.value())));
        all.push((AttributeId::NodeId, Variant::NodeId(node_id.duplicate())));
        all.push(
            (
                AttributeId::DisplayName,
                Variant::LocalizedText(
                    LocalizedText { locale: UaString::null(), text: UaString::from_str(display_name) },
                ),
            ),
        );
        all.push(
            (
                AttributeId::BrowseName,
                Variant::QualifiedName(
                    QualifiedName { namespace_index: 0, name: UaString::from_str(browse_name) },
                ),
            ),
        );
        all.push(
            (
                AttributeId::Description,
                Variant::LocalizedText(
                    LocalizedText { locale: UaString::null(), text: UaString::from_str(description) },
                ),
            ),
        );
        all.push((AttributeId::WriteMask, Variant::UInt32(0)));
        all.push((AttributeId::UserWriteMask, Variant::UInt32(0)));
        let ghost m = mandatory_entries(
            node_class,
            node_id@,
            browse_name.spec_bytes(),
            display_name.spec_bytes(),
            description.spec_bytes(),
        );
        assert(entry_views(all@) =~= m);
        let mut extra = attributes;
        let ghost x = entry_views(extra@);
        all.append(&mut extra);
        let ghost entries = m + x;
        assert(entry_views(all@) =~= entries);
        let mut slots: Vec<Option<DataValue>> = Vec::new();
        let mut k: usize = 0;
        while k < NUM_ATTRIBUTES
            invariant
                k <= NUM_ATTRIBUTES,
                slots@.len() == k,
                forall|j: int| 0 <= j < k ==> #[trigger] slots@[j] is None,
            decreases NUM_ATTRIBUTES - k,
        {
            slots.push(None);
            k = k + 1;
        }
        let ghost total = all@.len();
        let ghost mut i: int = 0;
        assert(entries.take(0) =~= seq![]);
        while all.len() > 0
            invariant
                entry_views(all@) == entries.skip(i as int),
                0 <= i,
                i + all@.len() == total,
                total == entries.len(),
                slots@.len() == NUM_ATTRIBUTES,
                slots@.map_values(|o: Option<DataValue>| dv_view(o)) == initial_slots(
                    entries.take(i as int),
                    now,
                ),
            decreases all@.len(),
        {
            let ghost before = all@;
            let (id, v) = all.remove(0);
            let ghost e = (id, v@);
            assert(entry_views(before)[0] == e);
            assert(entries.skip(i as int)[0] == entries[i as int]);
            assert(e == entries[i as int]);
            assert(all@ =~= before.subrange(1, before.len() as int));
            assert forall|j: int| 0 <= j < all@.len() implies entry_views(all@)[j] == entries.skip(
                i + 1,
            )[j] by {
                assert(entry_views(before)[j + 1] == entries.skip(i as int)[j + 1]);
            }
            assert(entry_views(all@) =~= entries.skip(i + 1));
            let idx = id.attribute_idx();
            let ghost prev = slots@;
            slots.set(idx, Some(DataValue::new_at(v, now)));
            proof {
                lemma_initial_slots_step(entries, i, now);
                assert(slots@.map_values(|o: Option<DataValue>| dv_view(o)) =~= prev.map_values(
                    |o: Option<DataValue>| dv_view(o),
                ).update(slot_of(id), Some(good_value_at(v@, now))));
                i = i + 1;
            }
        }
        assert(entries.take(i as int) =~= entries);
        let r = Base { attributes: slots };
        proof {
            assert forall|k: int| 0 <= k < x.len() implies !is_core(#[trigger] x[k].0) by {
                assert(!is_core(attributes@[k].0));
            }
            lemma_initial_mandatory(m, x, now, node_class, node_id@, browse_name.spec_bytes(), display_name.spec_bytes(), description.spec_bytes());
        }
        r
    }
}


impl Base {
    /// A node's table as `new_at` builds it, stamped with the current time.
    pub fn new(
        node_class: NodeClass,
        node_id: &NodeId,
        browse_name: &str,
        display_name: &str,
        description: &str,
        attributes: Vec<(AttributeId, Variant)>,
    ) -> (r: Base)
        requires
            forall|k: int| 0 <= k < attributes@.len() ==> !is_core(#[trigger] attributes@[k].0),
        ensures
            r.wf(),
            exists|now: i64|
                r.slots() == initial_slots(
                    mandatory_entries(
                        node_class,
                        node_id@,
                        browse_name.spec_bytes(),
                        display_name.spec_bytes(),
                        description.spec_bytes(),
                    ) + entry_views(attributes@),
                    now,
                ),
    {
        let now = crate::date_time::date_time_now();
        Base::new_at(node_class, node_id, browse_name, display_name, description, attributes, now)
    }
}

// ---------------------------------------------------------------- node kinds

/// A type of objects; it adds the mandatory IsAbstract attribute.
pub struct ObjectType {
    base: Base,
}

impl ObjectType {
    pub closed spec fn base_view(&self) -> Base {
        self.base
    }

    pub closed spec fn wf(&self) -> bool {
        &&& self.base.wf()
        &&& value_of(self.base.slots()[slot_of(AttributeId::IsAbstract)]) matches Some(
            VariantView::Boolean(_),
        )
    }

    /// An object type with its names and whether it is abstract, stamped `now`.
    pub fn new_at(
        node_id: &NodeId,
        browse_name: &str,
        display_name: &str,
        description: &str,
        is_abstract: bool,
        now: i64,
    ) -> (r: ObjectType)
        ensures
            r.wf(),
            r.base_view().slots() == initial_slots(
                mandatory_entries(
                    NodeClass::ObjectType,
                    node_id@,
                    browse_name.spec_bytes(),
                    display_name.spec_bytes(),
                    description.spec_bytes(),
                ) + seq![(AttributeId::IsAbstract, VariantView::Boolean(is_abstract))],
                now,
            ),
    {
        let attributes = vec![(AttributeId::IsAbstract, Variant::Boolean(is_abstract))];
        assert(entry_views(attributes@) =~= seq![
            (AttributeId::IsAbstract, VariantView::Boolean(is_abstract)),
        ]);
        let base = Base::new_at(
            NodeClass::ObjectType,
            node_id,
            browse_name,
            display_name,
            description,
            attributes,
            now,
        );
        proof {
            let e = mandatory_entries(
                NodeClass::ObjectType,
                node_id@,
                browse_name.spec_bytes(),
                display_name.spec_bytes(),
                description.spec_bytes(),
            ) + seq![(AttributeId::IsAbstract, VariantView::Boolean(is_abstract))];
            assert(e.last() == (AttributeId::IsAbstract, VariantView::Boolean(is_abstract)));
            assert(last_assigned(e, 7) == Some(VariantView::Boolean(is_abstract)));
        }
        ObjectType { base }
    }

    /// An object type stamped with the current time.
    pub fn new(
        node_id: &NodeId,
        browse_name: &str,
        display_name: &str,
        description: &str,
        is_abstract: bool,
    ) -> (r: ObjectType)
        ensures
            r.wf(),
            value_of(r.base_view().slots()[slot_of(AttributeId::IsAbstract)]) == Some(
                VariantView::Boolean(is_abstract),
            ),
    {
        let now = crate::date_time::date_time_now();
        let r = ObjectType::new_at(node_id, browse_name, display_name, description, is_abstract, now);
        proof {
            let e = mandatory_entries(
                NodeClass::ObjectType,
                node_id@,
                browse_name.spec_bytes(),
                display_name.spec_bytes(),
                description.spec_bytes(),
            ) + seq![(AttributeId::IsAbstract, VariantView::Boolean(is_abstract))];
            assert(e.last() == (AttributeId::IsAbstract, VariantView::Boolean(is_abstract)));
            assert(last_assigned(e, 7) == Some(VariantView::Boolean(is_abstract)));
        }
        r
    }

    /// Whether the type is abstract.
    pub fn is_abstract(&self) -> (r: bool)
        requires
            self.wf(),
        ensures
            value_of(self.base_view().slots()[slot_of(AttributeId::IsAbstract)]) == Some(
                VariantView::Boolean(r),
            ),
    {
        match &self.base.attributes[7] {
            Some(dv) => match &dv.value {
                Some(Variant::Boolean(b)) => *b,
                _ => {
                    assert(false);
                    false
                },
            },
            None => {
                assert(false);
                false
            },
        }
    }

    /// The shared attribute table.
    pub fn base(&self) -> (r: &Base)
        ensures
            *r == self.base_view(),
    {
        &self.base
    }

    /// A typed write, as `Base::set_attribute`; IsAbstract stays a Boolean.
    pub fn set_attribute(&mut self, id: AttributeId, value: DataValue) -> (r: Result<
        (),
        StatusCode,
    >)
        requires
            old(self).wf(),
        ensures
            final(self).wf(),
            r == check_write(id, value@),
            final(self).base_view().slots() == after_write(
                old(self).base_view().slots(),
                id,
                value@,
            ),
    {
        self.base.set_attribute(id, value)
    }
}

/// A node of one of the eight kinds. Object types carry their own mandatory
/// attribute; the other kinds are their shared table.
pub enum NodeType {
    Object(Base),
    ObjectType(ObjectType),
    ReferenceType(Base),
    Variable(Base),
    VariableType(Base),
    View(Base),
    DataType(Base),
    Method(Base),
}

impl NodeType {
    pub open spec fn wf(&self) -> bool {
        match self {
            NodeType::ObjectType(o) => o.wf(),
            NodeType::Object(b) | NodeType::ReferenceType(b) | NodeType::Variable(b)
            | NodeType::VariableType(b) | NodeType::View(b) | NodeType::DataType(b)
            | NodeType::Method(b) => b.wf(),
        }
    }

    pub open spec fn node_view(&self) -> Base {
        match self {
            NodeType::ObjectType(o) => o.base_view(),
            NodeType::Object(b) | NodeType::ReferenceType(b) | NodeType::Variable(b)
            | NodeType::VariableType(b) | NodeType::View(b) | NodeType::DataType(b)
            | NodeType::Method(b) => *b,
        }
    }

    /// The attribute table shared by every kind.
    pub fn as_node(&self) -> (r: &Base)
        ensures
            *r == self.node_view(),
    {
        match self {
            NodeType::ObjectType(o) => o.base(),
            NodeType::Object(b) | NodeType::ReferenceType(b) | NodeType::Variable(b)
            | NodeType::VariableType(b) | NodeType::View(b) | NodeType::DataType(b)
            | NodeType::Method(b) => b,
        }
    }

    /// The node's identifier.
    pub fn node_id(&self) -> (r: NodeId)
        requires
            self.wf(),
        ensures
            value_of(self.node_view().slots()[slot_of(AttributeId::NodeId)]) == Some(
                VariantView::NodeId(r@),
            ),
    {
        let b = self.as_node();
        proof {
            if let NodeType::ObjectType(o) = self {
                assert(o.base_view().wf());
            }
        }
        b.node_id().duplicate()
    }

    /// A typed write to the node, whatever its kind.
    pub fn set_attribute(&mut self, id: AttributeId, value: DataValue) -> (r: Result<
        (),
        StatusCode,
    >)
        requires
            old(self).wf(),
        ensures
            final(self).wf(),
            r == check_write(id, value@),
            final(self).node_view().slots() == after_write(
                old(self).node_view().slots(),
                id,
                value@,
            ),
    {
        match self {
            NodeType::ObjectType(o) => o.set_attribute(id, value),
            NodeType::Object(b) => b.set_attribute(id, value),
            NodeType::ReferenceType(b) => b.set_attribute(id, value),
            NodeType::Variable(b) => b.set_attribute(id, value),
            NodeType::VariableType(b) => b.set_attribute(id, value),
            NodeType::View(b) => b.set_attribute(id, value),
            NodeType::DataType(b) => b.set_attribute(id, value),
            NodeType::Method(b) => b.set_attribute(id, value),
        }
    }
}

/// The attributes that a node of this kind must have.
pub open spec fn is_mandatory(n: NodeType, a: AttributeId) -> bool {
    is_core(a) || (n is ObjectType && a == AttributeId::IsAbstract)
}

// ---------------------------------------------------------------- laws of the address space

/// Every node has each attribute that its kind makes mandatory.
pub proof fn lemma_mandatory_present(n: NodeType, a: AttributeId)
    requires
        n.wf(),
        is_mandatory(n, a),
    ensures
        n.node_view().slots()[slot_of(a)] is Some,
{
    if let NodeType::ObjectType(o) = n {
        assert(o.base_view().wf());
    }
}

/// A write that succeeds is read back; writing the same value twice is writing it once.
pub proof fn lemma_write_then_read(slots: Seq<Option<DataValueView>>, id: AttributeId, v: DataValueView)
    requires
        slots.len() == NUM_ATTRIBUTES,
    ensures
        check_write(id, v) is Ok ==> after_write(slots, id, v)[slot_of(id)] == Some(v),
        after_write(after_write(slots, id, v), id, v) == after_write(slots, id, v),
{
    if check_write(id, v) is Ok {
        assert(after_write(after_write(slots, id, v), id, v) =~= after_write(slots, id, v));
    }
}

} // verus!
