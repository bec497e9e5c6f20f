//! Schema descriptors: named, structural descriptions of the record types
//! on the wire, and the compatibility rule between them.
//!
//! Names are carried as UTF-8 bytes. A writer's schema is compatible with a
//! reader's when every field matches by name, position and type, a writer's
//! 32-bit integer field being readable as a 64-bit one without information
//! loss.

use vstd::prelude::*;

verus! {

/// The type of one field on the wire.
#[derive(Clone, Copy, Debug, PartialEq, Eq, Structural)]
pub enum FieldType {
    /// 32-bit signed integer, zig-zag varint encoded.
    Int,
    /// 64-bit signed integer, zig-zag varint encoded.
    Long,
    /// UTF-8 text, a length varint followed by the bytes.
    Text,
}

/// One named field of a record schema.
#[derive(Debug)]
pub struct FieldDescriptor {
    pub name: Vec<u8>,
    pub ftype: FieldType,
}

/// A named, structural description of a record type: its fields' names,
/// types and order.
#[derive(Debug)]
pub struct SchemaDescriptor {
    pub name: Vec<u8>,
    pub fields: Vec<FieldDescriptor>,
}

/// Mathematical image of a field descriptor.
#[verifier::ext_equal]
pub struct FieldView {
    pub name: Seq<u8>,
    pub ftype: FieldType,
}

/// Mathematical image of a schema descriptor.
#[verifier::ext_equal]
pub struct SchemaView {
    pub name: Seq<u8>,
    pub fields: Seq<FieldView>,
}

impl View for FieldDescriptor {
    type V = FieldView;

    open spec fn view(&self) -> FieldView {
        FieldView { name: self.name@, ftype: self.ftype }
    }
}

impl View for SchemaDescriptor {
    type V = SchemaView;

    open spec fn view(&self) -> SchemaView {
        SchemaView { name: self.name@, fields: self.fields@.map_values(|f: FieldDescriptor| f@) }
    }
}

/// Whether a value written as `w` reads back as `r` without information
/// loss.
pub open spec fn type_compatible(w: FieldType, r: FieldType) -> bool {
    w == r || (w == FieldType::Int && r == FieldType::Long)
}

/// Whether a record encoded under `w` can be decoded under `r` without
/// information loss.
pub open spec fn schema_compatible(w: SchemaView, r: SchemaView) -> bool {
    &&& w.fields.len() == r.fields.len()
    &&& forall|i: int|
        0 <= i < w.fields.len() ==> (#[trigger] w.fields[i]).name == r.fields[i].name
            && type_compatible(w.fields[i].ftype, r.fields[i].ftype)
}

/// Compatibility holds of every schema against itself, so registering a
/// schema that is already registered is always accepted.
pub proof fn lemma_schema_compatible_reflexive(s: SchemaView)
    ensures
        schema_compatible(s, s),
{
}

/// The schema of a purchase record on the wire: a 32-bit bike identifier
/// and a cost in hundredths of the currency unit.
pub open spec fn purchase_schema_view() -> SchemaView {
    SchemaView {
        name: seq![80u8, 117u8, 114u8, 99u8, 104u8, 97u8, 115u8, 101u8],
        fields: seq![
            FieldView { name: seq![98u8, 105u8, 107u8, 101u8, 95u8, 105u8, 100u8], ftype: FieldType::Int },
            FieldView { name: seq![99u8, 111u8, 115u8, 116u8], ftype: FieldType::Long },
        ],
    }
}

/// The schema of an aggregate snapshot on the wire: a 32-bit bike count and
/// a total cost in hundredths of the currency unit.
pub open spec fn snapshot_schema_view() -> SchemaView {
    SchemaView {
        name: seq![80u8, 117u8, 114u8, 99u8, 104u8, 97u8, 115u8, 101u8, 65u8, 103u8, 103u8, 114u8, 101u8, 103u8, 97u8, 116u8, 101u8],
        fields: seq![
            FieldView {
                name: seq![98u8, 105u8, 107u8, 101u8, 95u8, 99u8, 111u8, 117u8, 110u8, 116u8],
                ftype: FieldType::Int,
            },
            FieldView {
                name: seq![116u8, 111u8, 116u8, 97u8, 108u8, 95u8, 99u8, 111u8, 115u8, 116u8],
                ftype: FieldType::Long,
            },
        ],
    }
}

/// Builds the purchase record's schema descriptor.
pub fn purchase_schema() -> (s: SchemaDescriptor)
    ensures
        s@ == purchase_schema_view(),
{
    let s = SchemaDescriptor {
        name: vec![80u8, 117u8, 114u8, 99u8, 104u8, 97u8, 115u8, 101u8],
        fields: vec![
            FieldDescriptor {
                name: vec![98u8, 105u8, 107u8, 101u8, 95u8, 105u8, 100u8],
                ftype: FieldType::Int,
            },
            FieldDescriptor { name: vec![99u8, 111u8, 115u8, 116u8], ftype: FieldType::Long },
        ],
    };
    proof {
        assert(s@ =~~= purchase_schema_view());
    }
    s
}

/// Builds the aggregate snapshot's schema descriptor.
pub fn snapshot_schema() -> (s: SchemaDescriptor)
    ensures
        s@ == snapshot_schema_view(),
{
    let s = SchemaDescriptor {
        name: vec![80u8, 117u8, 114u8, 99u8, 104u8, 97u8, 115u8, 101u8, 65u8, 103u8, 103u8, 114u8, 101u8, 103u8, 97u8, 116u8, 101u8],
        fields: vec![
            FieldDescriptor {
                name: vec![98u8, 105u8, 107u8, 101u8, 95u8, 99u8, 111u8, 117u8, 110u8, 116u8],
                ftype: FieldType::Int,
            },
            FieldDescriptor {
                name: vec![116u8, 111u8, 116u8, 97u8, 108u8, 95u8, 99u8, 111u8, 115u8, 116u8],
                ftype: FieldType::Long,
            },
        ],
    };
    proof {
        assert(s@ =~~= snapshot_schema_view());
    }
    s
}

/// Byte-string equality.
pub fn bytes_eq(a: &Vec<u8>, b: &Vec<u8>) -> (r: bool)
    ensures
        r == (a@ == b@),
{
    if a.len() != b.len() {
        return false;
    }
    let mut i: usize = 0;
    while i < a.len()
        invariant
            i <= a.len(),
            a.len() == b.len(),
            forall|j: int| 0 <= j < i ==> a@[j] == b@[j],
        decreases a.len() - i,
    {
        if a[i] != b[i] {
            return false;
        }
        i = i + 1;
    }
    proof {
        assert(a@ =~= b@);
    }
    true
}

fn field_type_compatible(w: FieldType, r: FieldType) -> (c: bool)
    ensures
        c == type_compatible(w, r),
{
    match (w, r) {
        (FieldType::Int, FieldType::Long) => true,
        (wt, rt) => wt == rt,
    }
}

/// Decides [`schema_compatible`] for two descriptors.
pub fn compatible(w: &SchemaDescriptor, r: &SchemaDescriptor) -> (c: bool)
    ensures
        c == schema_compatible(w@, r@),
{
    if w.fields.len() != r.fields.len() {
        return false;
    }
    let mut i: usize = 0;
    while i < w.fields.len()
        invariant
            i <= w.fields.len(),
            w.fields.len() == r.fields.len(),
            forall|j: int|
                0 <= j < i ==> (#[trigger] w@.fields[j]).name == r@.fields[j].name
                    && type_compatible(w@.fields[j].ftype, r@.fields[j].ftype),
        decreases w.fields.len() - i,
    {
        if !bytes_eq(&w.fields[i].name, &r.fields[i].name) {
            proof {
                assert(w@.fields[i as int] == w.fields@[i as int]@);
                assert(r@.fields[i as int] == r.fields@[i as int]@);
            }
            return false;
        }
        if !field_type_compatible(w.fields[i].ftype, r.fields[i].ftype) {
            proof {
                assert(w@.fields[i as int] == w.fields@[i as int]@);
                assert(r@.fields[i as int] == r.fields@[i as int]@);
            }
            return false;
        }
        i = i + 1;
    }
    true
}

/// Structural equality of two descriptors, record name included.
pub fn schema_eq(a: &SchemaDescriptor, b: &SchemaDescriptor) -> (r: bool)
    ensures
        r == (a@ == b@),
{
    if !bytes_eq(&a.name, &b.name) {
        proof {
            assert(a@ != b@);
        }
        return false;
    }
    if a.fields.len() != b.fields.len() {
        proof {
            assert(a@.fields.len() == a.fields@.len() && b@.fields.len() == b.fields@.len());
        }
        return false;
    }
    let mut i: usize = 0;
    while i < a.fields.len()
        invariant
            i <= a.fields.len(),
            a.fields.len() == b.fields.len(),
            a.name@ == b.name@,
            forall|j: int| 0 <= j < i ==> #[trigger] a@.fields[j] == b@.fields[j],
        decreases a.fields.len() - i,
    {
        if !bytes_eq(&a.fields[i].name, &b.fields[i].name) {
            proof {
                assert(a@.fields[i as int].name == a.fields@[i as int].name@);
                assert(a@ != b@);
            }
            return false;
        }
        if a.fields[i].ftype != b.fields[i].ftype {
            proof {
                assert(a@.fields[i as int].ftype == a.fields@[i as int].ftype);
                assert(a@ != b@);
            }
            return false;
        }
        proof {
            assert(a@.fields[i as int] =~= b@.fields[i as int]);
        }
        i = i + 1;
    }
    proof {
        assert(a@ =~= b@);
    }
    true
}

} // verus!
