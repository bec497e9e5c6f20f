//! The schema registrar's model: subjects bound to registered schemas.
//!
//! The registrar ensures, once per output topic and before any record is
//! published, that a named schema exists under the topic's subject.
//! Registering a schema compatible with the one already stored — the same
//! schema in particular — succeeds and changes nothing; registering an
//! incompatible one fails with a schema conflict and leaves the stored
//! entry untouched. The same structure serves as the codec's local schema
//! cache: identifiers resolve to the descriptors registered under them.

use vstd::prelude::*;
use crate::errors::PipelineError;
use crate::schema::{compatible, schema_compatible, bytes_eq, SchemaDescriptor, SchemaView};

verus! {

/// The association the registrar establishes for one subject: the subject
/// name, the identifier the registry issued, and the schema stored.
#[derive(Debug)]
pub struct TopicBinding {
    pub subject: Vec<u8>,
    pub schema_id: u32,
    pub schema: SchemaDescriptor,
}

/// Mathematical image of a binding.
#[verifier::ext_equal]
pub struct BindingView {
    pub subject: Seq<u8>,
    pub schema_id: u32,
    pub schema: SchemaView,
}

impl View for TopicBinding {
    type V = BindingView;

    open spec fn view(&self) -> BindingView {
        BindingView { subject: self.subject@, schema_id: self.schema_id, schema: self.schema@ }
    }
}

/// The first binding stored for `subject`, if any.
pub open spec fn lookup_spec(reg: Seq<BindingView>, subject: Seq<u8>) -> Option<BindingView>
    decreases reg.len(),
{
    if reg.len() == 0 {
        None
    } else if reg[0].subject == subject {
        Some(reg[0])
    } else {
        lookup_spec(reg.drop_first(), subject)
    }
}

/// The schema stored under identifier `id`, if any. Identifiers are issued
/// in registration order, starting from one.
pub open spec fn resolve_spec(reg: Seq<BindingView>, id: u32) -> Option<SchemaView> {
    if 1 <= id <= reg.len() {
        Some(reg[id - 1].schema)
    } else {
        None
    }
}

/// What one registration call does to the registry, and what it returns: a
/// fresh subject stores the schema under the next identifier; a subject
/// whose stored schema is compatible with the offered one is confirmed
/// unchanged; an incompatible offer is a conflict and mutates nothing.
pub open spec fn register_spec(reg: Seq<BindingView>, subject: Seq<u8>, schema: SchemaView) -> (
    Seq<BindingView>,
    Result<u32, PipelineError>,
) {
    match lookup_spec(reg, subject) {
        Some(b) => if schema_compatible(b.schema, schema) {
            (reg, Ok(b.schema_id))
        } else {
            (reg, Err(PipelineError::SchemaConflict))
        },
        None => if reg.len() < u32::MAX {
            (
                reg.push(
                    BindingView { subject, schema_id: (reg.len() + 1) as u32, schema },
                ),
                Ok((reg.len() + 1) as u32),
            )
        } else {
            (reg, Err(PipelineError::RegistryUnavailable))
        },
    }
}

/// No binding for `subject` exactly when no stored subject equals it.
pub proof fn lemma_lookup_none_iff_absent(reg: Seq<BindingView>, subject: Seq<u8>)
    ensures
        lookup_spec(reg, subject) is None <==> (forall|i: int|
            0 <= i < reg.len() ==> (#[trigger] reg[i]).subject != subject),
    decreases reg.len(),
{
    if reg.len() > 0 {
        lemma_lookup_none_iff_absent(reg.drop_first(), subject);
        assert forall|j: int|
            0 <= j < reg.drop_first().len() implies (#[trigger] reg.drop_first()[j]).subject
            == reg[j + 1].subject by {}
        if lookup_spec(reg, subject) is None {
            assert forall|i: int|
                0 <= i < reg.len() implies (#[trigger] reg[i]).subject != subject by {
                if i > 0 {
                    assert(reg.drop_first()[i - 1] == reg[i]);
                }
            }
        }
        if forall|i: int| 0 <= i < reg.len() ==> (#[trigger] reg[i]).subject != subject {
            assert forall|j: int|
                0 <= j < reg.drop_first().len() implies (#[trigger] reg.drop_first()[j]).subject
                != subject by {
                assert(reg.drop_first()[j] == reg[j + 1]);
            }
        }
    }
}

/// The lookup returns the binding at the first stored match.
pub proof fn lemma_lookup_at_first_match(reg: Seq<BindingView>, subject: Seq<u8>, i: int)
    requires
        0 <= i < reg.len(),
        reg[i].subject == subject,
        forall|j: int| 0 <= j < i ==> (#[trigger] reg[j]).subject != subject,
    ensures
        lookup_spec(reg, subject) == Some(reg[i]),
    decreases i,
{
    if i > 0 {
        assert(forall|j: int|
            0 <= j < reg.len() - 1 ==> #[trigger] reg.drop_first()[j] == reg[j + 1]);
        lemma_lookup_at_first_match(reg.drop_first(), subject, i - 1);
    }
}

/// Appending a binding decides lookups that found nothing before.
pub proof fn lemma_lookup_push(reg: Seq<BindingView>, subject: Seq<u8>, b: BindingView)
    requires
        lookup_spec(reg, subject) is None,
    ensures
        lookup_spec(reg.push(b), subject) == if b.subject == subject {
            Some(b)
        } else {
            None::<BindingView>
        },
    decreases reg.len(),
{
    if reg.len() == 0 {
        assert(reg.push(b)[0] == b);
        assert(reg.push(b).drop_first() =~= reg);
    } else {
        assert(reg.push(b)[0] == reg[0]);
        assert(reg.push(b).drop_first() =~= reg.drop_first().push(b));
        lemma_lookup_push(reg.drop_first(), subject, b);
    }
}

/// Well-formedness of a registry: identifiers are the stored positions,
/// issued from one, and no subject is stored twice.
pub open spec fn registry_wf(reg: Seq<BindingView>) -> bool {
    &&& reg.len() <= u32::MAX
    &&& forall|i: int| 0 <= i < reg.len() ==> (#[trigger] reg[i]).schema_id == i + 1
    &&& forall|i: int, j: int|
        0 <= i < j < reg.len() ==> (#[trigger] reg[i]).subject != (#[trigger] reg[j]).subject
}

/// The schema registry: every subject bound so far, in registration order.
pub struct SchemaRegistry {
    bindings: Vec<TopicBinding>,
}

impl View for SchemaRegistry {
    type V = Seq<BindingView>;

    closed spec fn view(&self) -> Seq<BindingView> {
        self.bindings@.map_values(|b: TopicBinding| b@)
    }
}

impl SchemaRegistry {
    /// Whether the registry is well formed; constructors establish it and
    /// registrations preserve it.
    pub open spec fn wf(&self) -> bool {
        registry_wf(self@)
    }

    /// A registry with nothing registered.
    pub fn new() -> (r: SchemaRegistry)
        ensures
            r@ == Seq::<BindingView>::empty(),
            r.wf(),
    {
        let r = SchemaRegistry { bindings: Vec::new() };
        proof {
            assert(r@ =~= Seq::<BindingView>::empty());
        }
        r
    }

    fn find_index(&self, subject: &Vec<u8>) -> (r: Option<usize>)
        ensures
            match r {
                Some(i) => i < self@.len() && lookup_spec(self@, subject@) == Some(self@[i as int]),
                None => lookup_spec(self@, subject@) is None,
            },
    {
        let mut i: usize = 0;
        while i < self.bindings.len()
            invariant
                i <= self.bindings.len(),
                self@.len() == self.bindings@.len(),
                forall|j: int| 0 <= j < i ==> (#[trigger] self@[j]).subject != subject@,
                forall|j: int| 0 <= j < self@.len() ==> #[trigger] self@[j] == self.bindings@[j]@,
            decreases self.bindings.len() - i,
        {
            if bytes_eq(&self.bindings[i].subject, subject) {
                proof {
                    lemma_lookup_at_first_match(self@, subject@, i as int);
                }
                return Some(i);
            }
            i = i + 1;
        }
        proof {
            lemma_lookup_none_iff_absent(self@, subject@);
        }
        None
    }

    /// Idempotently ensures `schema` is registered under `subject`:
    /// confirms a compatible stored schema, stores the first schema for a
    /// fresh subject, and refuses an incompatible one without mutating the
    /// stored entry.
    pub fn ensure_registered(&mut self, subject: Vec<u8>, schema: SchemaDescriptor) -> (r: Result<
        u32,
        PipelineError,
    >)
        requires
            old(self).wf(),
        ensures
            final(self).wf(),
            final(self)@ == register_spec(old(self)@, subject@, schema@).0,
            r == register_spec(old(self)@, subject@, schema@).1,
    {
        match self.find_index(&subject) {
            Some(i) => {
                if compatible(&self.bindings[i].schema, &schema) {
                    Ok(self.bindings[i].schema_id)
                } else {
                    Err(PipelineError::SchemaConflict)
                }
            },
            None => {
                if self.bindings.len() >= u32::MAX as usize {
                    return Err(PipelineError::RegistryUnavailable);
                }
                let id: u32 = (self.bindings.len() + 1) as u32;
                let ghost pre = self@;
                self.bindings.push(TopicBinding { subject, schema_id: id, schema });
                proof {
                    assert(self@ =~= pre.push(self.bindings@[pre.len() as int]@));
                    lemma_lookup_none_iff_absent(pre, subject@);
                    assert(forall|j: int| 0 <= j < pre.len() ==> #[trigger] self@[j] == pre[j]);
                }
                Ok(id)
            },
        }
    }

    /// The binding stored for `subject`, if any.
    pub fn lookup(&self, subject: &Vec<u8>) -> (r: Option<&TopicBinding>)
        ensures
            match r {
                Some(b) => lookup_spec(self@, subject@) == Some(b@),
                None => lookup_spec(self@, subject@) is None,
            },
    {
        match self.find_index(subject) {
            Some(i) => Some(&self.bindings[i]),
            None => None,
        }
    }

    /// The schema stored under identifier `id`, if any: the codec's
    /// resolution step for a payload that names its schema.
    pub fn resolve(&self, schema_id: u32) -> (r: Option<&SchemaDescriptor>)
        ensures
            match r {
                Some(s) => resolve_spec(self@, schema_id) == Some(s@),
                None => resolve_spec(self@, schema_id) is None,
            },
    {
        if schema_id >= 1 && (schema_id as usize) <= self.bindings.len() {
            Some(&self.bindings[(schema_id as usize) - 1].schema)
        } else {
            None
        }
    }
}

/// Registering a schema a second time under the same subject succeeds with
/// the same identifier and leaves the registry exactly as the first call
/// left it: registration is idempotent.
pub proof fn lemma_registration_idempotent(
    reg: Seq<BindingView>,
    subject: Seq<u8>,
    schema: SchemaView,
)
    ensures
        ({
            let (reg1, r1) = register_spec(reg, subject, schema);
            let (reg2, r2) = register_spec(reg1, subject, schema);
            r1 is Ok ==> r2 == r1 && reg2 == reg1
        }),
{
    let (reg1, r1) = register_spec(reg, subject, schema);
    if r1 is Ok {
        match lookup_spec(reg, subject) {
            Some(b) => {},
            None => {
                let b = BindingView { subject, schema_id: (reg.len() + 1) as u32, schema };
                lemma_lookup_push(reg, subject, b);
            },
        }
    }
}

/// A registration whose schema is incompatible with the stored one fails
/// with a schema conflict and mutates nothing.
pub proof fn lemma_incompatible_registration_rejected(
    reg: Seq<BindingView>,
    subject: Seq<u8>,
    offered: SchemaView,
)
    requires
        lookup_spec(reg, subject) is Some,
        !schema_compatible(lookup_spec(reg, subject)->Some_0.schema, offered),
    ensures
        register_spec(reg, subject, offered).1 == Err::<u32, PipelineError>(
            PipelineError::SchemaConflict,
        ),
        register_spec(reg, subject, offered).0 == reg,
{
}

/// After a first schema is stored under a fresh subject, offering a
/// structurally incompatible second schema under that subject fails on the
/// second call, and the entry the first call stored is still there,
/// unchanged.
pub proof fn lemma_conflicting_second_registration(
    reg: Seq<BindingView>,
    subject: Seq<u8>,
    first: SchemaView,
    second: SchemaView,
)
    requires
        lookup_spec(reg, subject) is None,
        reg.len() < u32::MAX,
        !schema_compatible(first, second),
    ensures
        ({
            let (reg1, r1) = register_spec(reg, subject, first);
            let (reg2, r2) = register_spec(reg1, subject, second);
            &&& r1 is Ok
            &&& r2 == Err::<u32, PipelineError>(PipelineError::SchemaConflict)
            &&& reg2 == reg1
            &&& lookup_spec(reg2, subject)->Some_0.schema == first
        }),
{
    let b = BindingView { subject, schema_id: (reg.len() + 1) as u32, schema: first };
    lemma_lookup_push(reg, subject, b);
}

} // verus!
