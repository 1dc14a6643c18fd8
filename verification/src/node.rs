//! The normalized schema node: the closed variant set the generator works
//! on, and the normalizer that lowers a raw schema into it.

use vstd::prelude::*;

verus! {

use crate::json::JsonValue;
use crate::schema::InstanceTy;
use crate::schema::ItemsField;
use crate::schema::RawNode;
use crate::schema::RawSchema;
use crate::schema::SchemaKind;
use crate::schema::TypeField;
use crate::schema::is_null_raw;
use crate::schema::is_null_schema;
use crate::schema::spec_count_non_null;
use crate::schema::spec_count_non_null_opts;
use crate::schema::spec_first_non_null;
use crate::schema::spec_has_nonempty_str;
use crate::schema::spec_has_number;
use crate::schema::spec_opts_have_null;
use crate::schema::spec_raw_kind;
use crate::schema::spec_raw_nullable;
use crate::schema::spec_single_kind;
use crate::schema::spec_tys_have_null;
use crate::text::chars_of;
use crate::text::string_from_chars;

/// A normalized schema node: its variant, whether `null` is also admitted,
/// and the description that documents it.
pub struct SchemaNode {
    pub nullable: bool,
    pub description: Option<String>,
    pub body: SchemaBody,
}

/// One property of an object schema.
pub struct Property {
    pub name: String,
    pub schema: SchemaNode,
}

/// The closed variant set of normalized schemas.
pub enum SchemaBody {
    Ref { key: String },
    Any,
    Bool,
    Number,
    Int,
    Str,
    Enum { options: Vec<JsonValue> },
    Object {
        ty_name: String,
        properties: Vec<Property>,
        required: Vec<String>,
        additional: Option<Box<SchemaNode>>,
    },
    Mapping { value: Box<SchemaNode> },
    Array { item: Box<SchemaNode> },
    Union { members: Vec<SchemaNode> },
}

/// The tag of a node body.
pub open spec fn kind_of(b: SchemaBody) -> SchemaKind {
    match b {
        SchemaBody::Ref { .. } => SchemaKind::Reference,
        SchemaBody::Any => SchemaKind::Any,
        SchemaBody::Bool => SchemaKind::Boolean,
        SchemaBody::Number => SchemaKind::Number,
        SchemaBody::Int => SchemaKind::Integer,
        SchemaBody::Str => SchemaKind::Str,
        SchemaBody::Enum { .. } => SchemaKind::Enum,
        SchemaBody::Object { .. } => SchemaKind::Object,
        SchemaBody::Mapping { .. } => SchemaKind::Mapping,
        SchemaBody::Array { .. } => SchemaKind::Array,
        SchemaBody::Union { .. } => SchemaKind::Union,
    }
}

/// Whether an enum literal is usable: a number, or a non-empty string.
pub open spec fn usable_literal(v: JsonValue) -> bool {
    ||| v is Number
    ||| (v matches JsonValue::Str(t) && t@.len() > 0)
}

/// Well-formedness of a normalized node: objects declare at least one
/// property (an object without any is a `Mapping`), enums carry at least
/// one usable literal, and unions have at least one member, none of which
/// is a null schema by construction since the variant set has no null case.
pub open spec fn wf_node(n: SchemaNode) -> bool {
    wf_body(n.body)
}

/// Well-formedness of a node body.
pub open spec fn wf_body(b: SchemaBody) -> bool
    decreases b,
{
    match b {
        SchemaBody::Enum { options } => options@.len() > 0 && forall|j: int|
            0 <= j < options@.len() ==> usable_literal(#[trigger] options@[j]),
        SchemaBody::Object { properties, additional, .. } => {
            &&& properties@.len() > 0
            &&& forall|j: int|
                0 <= j < properties@.len() ==> wf_body(#[trigger] properties@[j].schema.body)
            &&& (additional matches Some(a) ==> wf_body(a.body))
        },
        SchemaBody::Mapping { value } => wf_body(value.body),
        SchemaBody::Array { item } => wf_body(item.body),
        SchemaBody::Union { members } => members@.len() > 0 && forall|j: int|
            0 <= j < members@.len() ==> wf_body(#[trigger] members@[j].body),
        _ => true,
    }
}

impl SchemaNode {
    /// The tag of this node.
    pub open spec fn kind(self) -> SchemaKind {
        kind_of(self.body)
    }

    /// Whether the node also admits `null`.
    pub fn is_nullable(&self) -> (r: bool)
        ensures
            r == self.nullable,
    {
        self.nullable
    }

    /// Whether the node is the unconstrained schema.
    pub fn is_any(&self) -> (r: bool)
        ensures
            r == (self.kind() == SchemaKind::Any),
    {
        matches!(self.body, SchemaBody::Any)
    }

    /// Whether the node is an unresolved reference.
    pub fn is_ref(&self) -> (r: bool)
        ensures
            r == (self.kind() == SchemaKind::Reference),
    {
        matches!(self.body, SchemaBody::Ref { .. })
    }

    /// Whether the node is the boolean schema.
    pub fn is_bool(&self) -> (r: bool)
        ensures
            r == (self.kind() == SchemaKind::Boolean),
    {
        matches!(self.body, SchemaBody::Bool)
    }

    /// Whether the node is the number schema.
    pub fn is_num(&self) -> (r: bool)
        ensures
            r == (self.kind() == SchemaKind::Number),
    {
        matches!(self.body, SchemaBody::Number)
    }

    /// Whether the node is the integer schema.
    pub fn is_int(&self) -> (r: bool)
        ensures
            r == (self.kind() == SchemaKind::Integer),
    {
        matches!(self.body, SchemaBody::Int)
    }

    /// Whether the node is the string schema.
    pub fn is_str(&self) -> (r: bool)
        ensures
            r == (self.kind() == SchemaKind::Str),
    {
        matches!(self.body, SchemaBody::Str)
    }

    /// Whether the node is an enum of literals.
    pub fn is_enum(&self) -> (r: bool)
        ensures
            r == (self.kind() == SchemaKind::Enum),
    {
        matches!(self.body, SchemaBody::Enum { .. })
    }

    /// Whether the node is an object with declared properties.
    pub fn is_obj(&self) -> (r: bool)
        ensures
            r == (self.kind() == SchemaKind::Object),
    {
        matches!(self.body, SchemaBody::Object { .. })
    }

    /// Whether the node is an object emitted as an index signature.
    pub fn is_map(&self) -> (r: bool)
        ensures
            r == (self.kind() == SchemaKind::Mapping),
    {
        matches!(self.body, SchemaBody::Mapping { .. })
    }

    /// Whether the node is an array.
    pub fn is_array(&self) -> (r: bool)
        ensures
            r == (self.kind() == SchemaKind::Array),
    {
        matches!(self.body, SchemaBody::Array { .. })
    }

    /// Whether the node is a union.
    pub fn is_union(&self) -> (r: bool)
        ensures
            r == (self.kind() == SchemaKind::Union),
    {
        matches!(self.body, SchemaBody::Union { .. })
    }

    /// Whether the node is one of the four primitive schemas.
    pub fn is_primitive(&self) -> (r: bool)
        ensures
            r == (self.kind() == SchemaKind::Integer || self.kind() == SchemaKind::Number
                || self.kind() == SchemaKind::Boolean || self.kind() == SchemaKind::Str),
    {
        matches!(
            self.body,
            SchemaBody::Int | SchemaBody::Number | SchemaBody::Bool | SchemaBody::Str
        )
    }
}

/// The text after the last `/` of `s`; the whole of `s` when it has none.
pub open spec fn spec_last_segment(s: Seq<char>) -> Seq<char>
    decreases s.len(),
{
    if s.len() == 0 {
        s
    } else if s.last() == '/' {
        Seq::empty()
    } else {
        spec_last_segment(s.drop_last()).push(s.last())
    }
}

/// The text after the last `/` of `s` (executable form).
pub fn last_segment(s: &str) -> (r: String)
    ensures
        r@ == spec_last_segment(s@),
{
    let cs = chars_of(s);
    let mut start: usize = cs.len();
    proof {
        assert(s@.subrange(0, s@.len() as int) =~= s@);
        assert(s@.subrange(s@.len() as int, s@.len() as int) =~= Seq::<char>::empty());
        assert(spec_last_segment(s@) =~= spec_last_segment(s@) + Seq::<char>::empty());
    }
    while start > 0
        invariant
            start <= cs.len(),
            cs@ == s@,
            spec_last_segment(s@) == spec_last_segment(s@.subrange(0, start as int)) + s@.subrange(
                start as int,
                s@.len() as int,
            ),
        ensures
            start == 0 || s@[start - 1] == '/',
            start <= cs.len(),
            cs@ == s@,
            spec_last_segment(s@) == spec_last_segment(s@.subrange(0, start as int)) + s@.subrange(
                start as int,
                s@.len() as int,
            ),
        decreases start,
    {
        if cs[start - 1] == '/' {
            break;
        }
        proof {
            assert(s@.subrange(0, start as int).drop_last() =~= s@.subrange(0, start - 1));
            assert(s@.subrange(start - 1, s@.len() as int) =~= seq![s@[start - 1]] + s@.subrange(
                start as int,
                s@.len() as int,
            ));
            assert(spec_last_segment(s@.subrange(0, start as int)) + s@.subrange(
                start as int,
                s@.len() as int,
            ) =~= spec_last_segment(s@.subrange(0, start - 1)) + s@.subrange(
                start - 1,
                s@.len() as int,
            ));
        }
        start = start - 1;
    }
    proof {
        if start > 0 {
            assert(s@.subrange(0, start as int).last() == '/');
            assert(spec_last_segment(s@.subrange(0, start as int)) =~= Seq::<char>::empty());
        } else {
            assert(s@.subrange(0, 0) =~= Seq::<char>::empty());
            assert(spec_last_segment(Seq::<char>::empty()) =~= Seq::<char>::empty());
        }
        assert(Seq::<char>::empty() + s@.subrange(start as int, s@.len() as int) =~= s@.subrange(
            start as int,
            s@.len() as int,
        ));
        assert(spec_last_segment(s@) =~= s@.subrange(start as int, s@.len() as int));
    }
    let mut out: Vec<char> = Vec::new();
    let mut i: usize = start;
    while i < cs.len()
        invariant
            start <= i <= cs@.len(),
            cs@ == s@,
            out@ == s@.subrange(start as int, i as int),
        decreases cs@.len() - i,
    {
        out.push(cs[i]);
        i = i + 1;
        assert(out@ =~= s@.subrange(start as int, i as int));
    }
    assert(out@ =~= s@.subrange(start as int, s@.len() as int));
    string_from_chars(&out)
}

/// A copy of an `Option<String>`.
pub fn clone_opt_string(o: &Option<String>) -> (r: Option<String>)
    ensures
        r == *o,
{
    match o {
        Some(s) => Some(s.clone()),
        None => None,
    }
}

/// The numeric literals of `vals` up to index `i`, in order.
pub open spec fn spec_numeric_prefix(vals: Seq<JsonValue>, i: int) -> Seq<JsonValue>
    decreases i,
{
    if i <= 0 {
        Seq::empty()
    } else {
        spec_numeric_prefix(vals, i - 1) + if vals[i - 1] is Number {
            seq![vals[i - 1]]
        } else {
            Seq::empty()
        }
    }
}

/// The non-empty string literals of `vals` up to index `i`, in order.
pub open spec fn spec_string_prefix(vals: Seq<JsonValue>, i: int) -> Seq<JsonValue>
    decreases i,
{
    if i <= 0 {
        Seq::empty()
    } else {
        spec_string_prefix(vals, i - 1) + if vals[i - 1] matches JsonValue::Str(t) && t@.len() > 0 {
            seq![vals[i - 1]]
        } else {
            Seq::empty()
        }
    }
}

proof fn lemma_numeric_prefix_nonempty(vals: Seq<JsonValue>, i: int)
    requires
        0 <= i <= vals.len(),
    ensures
        spec_numeric_prefix(vals, i).len() > 0 <==> exists|j: int|
            0 <= j < i && (#[trigger] vals[j]) is Number,
        forall|k: int|
            0 <= k < spec_numeric_prefix(vals, i).len() ==> (#[trigger] spec_numeric_prefix(
                vals,
                i,
            )[k]) is Number,
    decreases i,
{
    if i > 0 {
        lemma_numeric_prefix_nonempty(vals, i - 1);
    }
}

proof fn lemma_string_prefix_nonempty(vals: Seq<JsonValue>, i: int)
    requires
        0 <= i <= vals.len(),
    ensures
        spec_string_prefix(vals, i).len() > 0 <==> exists|j: int|
            {
                &&& 0 <= j < i
                &&& (#[trigger] vals[j]) matches JsonValue::Str(t) && t@.len() > 0
            },
        forall|k: int|
            0 <= k < spec_string_prefix(vals, i).len() ==> usable_literal(
                #[trigger] spec_string_prefix(vals, i)[k],
            ),
    decreases i,
{
    if i > 0 {
        lemma_string_prefix_nonempty(vals, i - 1);
    }
}

/// The numeric literals of an `enum` list, kept in order.
#[verifier::loop_isolation(false)]
fn filter_number_options(vals: &Vec<JsonValue>) -> (r: Vec<JsonValue>)
    ensures
        r@ == spec_numeric_prefix(vals@, vals@.len() as int),
        r@.len() > 0 <==> spec_has_number(vals@),
        forall|k: int| 0 <= k < r@.len() ==> usable_literal(#[trigger] r@[k]),
{
    let mut out: Vec<JsonValue> = Vec::new();
    let mut i: usize = 0;
    while i < vals.len()
        invariant
            i <= vals@.len(),
            out@ == spec_numeric_prefix(vals@, i as int),
        decreases vals@.len() - i,
    {
        if matches!(&vals[i], JsonValue::Number(_)) {
            let c = vals[i].clone_scalar();
            out.push(c);
        }
        i = i + 1;
        assert(out@ =~= spec_numeric_prefix(vals@, i as int));
    }
    proof {
        lemma_numeric_prefix_nonempty(vals@, vals@.len() as int);
    }
    out
}

/// The non-empty string literals of an `enum` list, kept in order.
#[verifier::loop_isolation(false)]
fn filter_string_options(vals: &Vec<JsonValue>) -> (r: Vec<JsonValue>)
    ensures
        r@ == spec_string_prefix(vals@, vals@.len() as int),
        r@.len() > 0 <==> spec_has_nonempty_str(vals@),
        forall|k: int| 0 <= k < r@.len() ==> usable_literal(#[trigger] r@[k]),
{
    let mut out: Vec<JsonValue> = Vec::new();
    let mut i: usize = 0;
    while i < vals.len()
        invariant
            i <= vals@.len(),
            out@ == spec_string_prefix(vals@, i as int),
        decreases vals@.len() - i,
    {
        let keep = match &vals[i] {
            JsonValue::Str(t) => t.as_str().unicode_len() > 0,
            _ => false,
        };
        if keep {
            let c = vals[i].clone_scalar();
            out.push(c);
        }
        i = i + 1;
        assert(out@ =~= spec_string_prefix(vals@, i as int));
    }
    proof {
        lemma_string_prefix_nonempty(vals@, vals@.len() as int);
    }
    out
}

proof fn lemma_count_non_null_step(ts: Seq<InstanceTy>, i: int)
    requires
        0 <= i < ts.len(),
    ensures
        spec_count_non_null(ts.subrange(0, i + 1)) == spec_count_non_null(ts.subrange(0, i))
            + if ts[i] is Null { 0nat } else { 1nat },
{
    assert(ts.subrange(0, i + 1).drop_last() =~= ts.subrange(0, i));
    assert(ts.subrange(0, i + 1).last() == ts[i]);
}

proof fn lemma_count_non_null_opts_step(opts: Seq<RawSchema>, i: int)
    requires
        0 <= i < opts.len(),
    ensures
        spec_count_non_null_opts(opts.subrange(0, i + 1)) == spec_count_non_null_opts(
            opts.subrange(0, i),
        ) + if is_null_raw(opts[i]) { 0nat } else { 1nat },
{
    assert(opts.subrange(0, i + 1).drop_last() =~= opts.subrange(0, i));
    assert(opts.subrange(0, i + 1).last() == opts[i]);
}

proof fn lemma_first_non_null_at(ts: Seq<InstanceTy>, i: int)
    requires
        0 <= i < ts.len(),
        forall|j: int| 0 <= j < i ==> (#[trigger] ts[j]) is Null,
        !(ts[i] is Null),
    ensures
        spec_first_non_null(ts) == ts[i],
    decreases i,
{
    if i == 0 {
    } else {
        assert(ts[0] is Null);
        lemma_first_non_null_at(ts.drop_first(), i - 1);
    }
}

proof fn lemma_tys_have_null_step(ts: Seq<InstanceTy>, i: int)
    requires
        0 <= i < ts.len(),
    ensures
        spec_tys_have_null(ts.subrange(0, i + 1)) == (spec_tys_have_null(ts.subrange(0, i))
            || ts[i] is Null),
{
    let a = ts.subrange(0, i + 1);
    let b = ts.subrange(0, i);
    if spec_tys_have_null(a) {
        let j = choose|j: int| 0 <= j < a.len() && (#[trigger] a[j]) is Null;
        if j < i {
            assert(b[j] is Null);
        } else {
            assert(a[i] == ts[i]);
        }
    }
    if spec_tys_have_null(b) {
        let j = choose|j: int| 0 <= j < b.len() && (#[trigger] b[j]) is Null;
        assert(a[j] is Null);
    }
    if ts[i] is Null {
        assert(a[i] is Null);
    }
}

proof fn lemma_count_zero_all_null(ts: Seq<InstanceTy>, i: int)
    requires
        0 <= i <= ts.len(),
        spec_count_non_null(ts.subrange(0, i)) == 0,
    ensures
        forall|j: int| 0 <= j < i ==> (#[trigger] ts[j]) is Null,
    decreases i,
{
    if i > 0 {
        lemma_count_non_null_step(ts, i - 1);
        lemma_count_zero_all_null(ts, i - 1);
        assert(ts.subrange(0, i)[i - 1] == ts[i - 1]);
    }
}

/// Whether a reference node's `type` keyword names `null`.
#[verifier::loop_isolation(false)]
fn check_nullable(ty: &TypeField) -> (r: bool)
    ensures
        r == match *ty {
            TypeField::Single(t) => t is Null,
            TypeField::Many(ts) => spec_tys_have_null(ts@),
            TypeField::Missing => false,
        },
{
    match ty {
        TypeField::Single(t) => matches!(t, InstanceTy::Null),
        TypeField::Many(ts) => {
            let mut i: usize = 0;
            let mut found: bool = false;
            while i < ts.len()
                invariant
                    i <= ts@.len(),
                    found == exists|j: int| 0 <= j < i && (#[trigger] ts@[j]) is Null,
                decreases ts@.len() - i,
            {
                if matches!(ts[i], InstanceTy::Null) {
                    found = true;
                }
                i = i + 1;
            }
            found
        },
        TypeField::Missing => false,
    }
}

/// Normalize a list of union options: null options are removed and lifted
/// into the `nullable` flag; when nothing else remains the result is `Any`.
#[verifier::loop_isolation(false)]
#[verifier::rlimit(100)]
#[verifier::spinoff_prover]
fn normalize_union(options: &Vec<RawSchema>, description: Option<String>) -> (r: SchemaNode)
    ensures
        wf_node(r),
        kind_of(r.body) == if spec_count_non_null_opts(options@) == 0 {
            SchemaKind::Any
        } else {
            SchemaKind::Union
        },
        r.nullable == spec_opts_have_null(options@),
        union_norm_ok(*options, description, r),
    decreases *options, 1int,
{
    proof {
        reveal_with_fuel(wf_body, 3);
    }
    let mut members: Vec<SchemaNode> = Vec::new();
    let mut has_null: bool = false;
    let mut i: usize = 0;
    while i < options.len()
        invariant
            i <= options@.len(),
            members@.len() == spec_count_non_null_opts(options@.subrange(0, i as int)),
            has_null == exists|j: int| 0 <= j < i && is_null_raw(#[trigger] options@[j]),
            forall|k: int| 0 <= k < members@.len() ==> wf_node(#[trigger] members@[k]),
            forall|k: int|
                0 <= k < i && !is_null_raw(#[trigger] options@[k]) ==> norm_ok(
                    options@[k],
                    members@[spec_count_non_null_opts(options@.subrange(0, k)) as int],
                ),
        decreases options@.len() - i,
    {
        proof {
            lemma_count_non_null_opts_step(options@, i as int);
            let os = *options;
            let osv = os@;
            let k = i as int;
            assert(decreases_to!(os => os@));
            assert(decreases_to!(osv => osv[k]));
        }
        if is_null_schema(&options[i]) {
            has_null = true;
        } else {
            let m = normalize(&options[i]);
            members.push(m);
        }
        i = i + 1;
        proof {
            assert forall|k: int|
                0 <= k < i && !is_null_raw(#[trigger] options@[k]) implies norm_ok(
                options@[k],
                members@[spec_count_non_null_opts(options@.subrange(0, k)) as int],
            ) by {
                lemma_count_non_null_opts_step(options@, k);
                if k < i - 1 {
                    lemma_count_opts_mono(options@, k + 1, i - 1);
                }
            }
        }
    }
    proof {
        assert(options@.subrange(0, options@.len() as int) =~= options@);
    }
    if members.len() == 0 {
        SchemaNode { nullable: has_null, description, body: SchemaBody::Any }
    } else {
        SchemaNode { nullable: has_null, description, body: SchemaBody::Union { members } }
    }
}

/// What the single-type lowering pins beyond its variant and flag: an
/// object keeps its property names, required list and extension name, and
/// an enum keeps exactly the usable literals of the `enum` keyword, in
/// order.
pub open spec fn single_details_ok(n: RawNode, t: InstanceTy, r: SchemaNode) -> bool {
    &&& (t is Object ==> match n.object {
        Some(rules) => rules.properties@.len() > 0 ==> (r.body matches SchemaBody::Object {
            ty_name,
            properties,
            required,
            additional,
        } && {
            &&& ty_name@ == (match n.ext_type_name {
                Some(e) => e@,
                None => Seq::<char>::empty(),
            })
            &&& properties@.len() == rules.properties@.len()
            &&& forall|j: int|
                0 <= j < properties@.len() ==> (#[trigger] properties@[j]).name
                    == rules.properties@[j].0
            &&& required@.len() == rules.required@.len()
            &&& forall|j: int|
                0 <= j < required@.len() ==> (#[trigger] required@[j]) == rules.required@[j]
            &&& (additional is Some <==> rules.additional is Some)
        }),
        None => true,
    })
    &&& ((t is Number || t is Integer) && spec_single_kind(n, t) == SchemaKind::Enum ==> (
    r.body matches SchemaBody::Enum { options } && options@ == spec_numeric_prefix(
        n.enum_values->0@,
        n.enum_values->0@.len() as int,
    )))
    &&& (t is Str && spec_single_kind(n, t) == SchemaKind::Enum ==> (r.body
        matches SchemaBody::Enum { options } && options@ == spec_string_prefix(
        n.enum_values->0@,
        n.enum_values->0@.len() as int,
    )))
}

/// The full normalization relation: `r` is what the normalizer produces
/// for `s`.  It pins the variant, the nullability flag, the description,
/// the reference key (the last `/`-segment of the `$ref` text), union
/// membership (the normalizations of the non-null options, in order), the
/// object/map split with property names and required lists, the map's
/// value schema (`additionalProperties`, or the unconstrained schema),
/// the array's item schema, and enum contents — recursively.
pub open spec fn norm_ok(s: RawSchema, r: SchemaNode) -> bool
    decreases s, 2int,
{
    match s {
        RawSchema::Flag(_) => r.body is Any && !r.nullable && r.description is None,
        RawSchema::Node(n) => {
            if n.subschemas is Some {
                match ((n.subschemas->0).one_of, (n.subschemas->0).any_of) {
                    (Some(opts), None) => union_norm_ok(opts, n.description, r),
                    (None, Some(opts)) => union_norm_ok(opts, n.description, r),
                    _ => r.body is Any && !r.nullable && r.description == n.description,
                }
            } else if n.reference is Some {
                &&& r.body matches SchemaBody::Ref { key } && key@ == spec_last_segment(
                    n.reference->0@,
                )
                &&& r.nullable == (match n.ty {
                    TypeField::Single(t) => t is Null,
                    TypeField::Many(ts) => spec_tys_have_null(ts@),
                    TypeField::Missing => false,
                })
                &&& r.description == n.description
            } else {
                match n.ty {
                    TypeField::Missing => r.body is Any && !r.nullable && r.description
                        == n.description,
                    TypeField::Single(t) => single_norm_ok(*n, t, false, r),
                    TypeField::Many(ts) => {
                        let cnt = spec_count_non_null(ts@);
                        if cnt == 0 {
                            r.body is Any && r.nullable == (ts@.len() > 0) && r.description
                                == n.description
                        } else if cnt == 1 {
                            single_norm_ok(*n, spec_first_non_null(ts@), ts@.len() > 1, r)
                        } else {
                            &&& r.nullable == spec_tys_have_null(ts@)
                            &&& r.description is None
                            &&& r.body matches SchemaBody::Union { members } && {
                                &&& members@.len() == cnt
                                &&& forall|k: int|
                                    0 <= k < ts@.len() && !((#[trigger] ts@[k]) is Null)
                                        ==> single_norm_ok(
                                        *n,
                                        ts@[k],
                                        false,
                                        members@[spec_count_non_null(
                                            ts@.subrange(0, k),
                                        ) as int],
                                    )
                            }
                        }
                    },
                }
            }
        },
    }
}

/// The normalization relation for one list of union options: null options
/// are lifted into the flag, and the members are the normalizations of
/// the non-null options, in order; with none left the node is `Any`.
pub open spec fn union_norm_ok(opts: Vec<RawSchema>, desc: Option<String>, r: SchemaNode) -> bool
    decreases opts, 1int,
{
    &&& r.description == desc
    &&& r.nullable == spec_opts_have_null(opts@)
    &&& if spec_count_non_null_opts(opts@) == 0 {
        r.body is Any
    } else {
        r.body matches SchemaBody::Union { members } && {
            &&& members@.len() == spec_count_non_null_opts(opts@)
            &&& forall|k: int|
                0 <= k < opts@.len() && !is_null_raw(#[trigger] opts@[k]) ==> norm_ok(
                    opts@[k],
                    members@[spec_count_non_null_opts(opts@.subrange(0, k)) as int],
                )
        }
    }
}

/// The normalization relation for a node taken with one concrete instance
/// type: the head facts of `single_details_ok` plus the recursive
/// normalization of the map value, the object properties and
/// `additionalProperties`, and the array items.
pub open spec fn single_norm_ok(n: RawNode, t: InstanceTy, nullable: bool, r: SchemaNode) -> bool
    decreases n, 1int,
{
    &&& r.description == n.description
    &&& r.nullable == if t is Null {
        true
    } else {
        nullable
    }
    &&& kind_of(r.body) == spec_single_kind(n, t)
    &&& single_details_ok(n, t, r)
    &&& (t is Object ==> match n.object {
        None => r.body matches SchemaBody::Mapping { value } && value.body is Any
            && !value.nullable && value.description is None,
        Some(rules) => {
            if rules.properties@.len() == 0 {
                r.body matches SchemaBody::Mapping { value } && (match rules.additional {
                    Some(a) => norm_ok(*a, *value),
                    None => value.body is Any && !value.nullable && value.description
                        is None,
                })
            } else {
                r.body matches SchemaBody::Object { properties, additional, .. } && {
                    &&& forall|j: int|
                        0 <= j < rules.properties@.len() ==> norm_ok(
                            (#[trigger] rules.properties@[j]).1,
                            properties@[j].schema,
                        )
                    &&& (rules.additional matches Some(a) ==> norm_ok(*a, *additional->0))
                }
            }
        },
    })
    &&& (t is Array ==> match n.array {
        None => r.body is Any,
        Some(ar) => r.body matches SchemaBody::Array { item } && (match ar.items {
            ItemsField::Single(bx) => norm_ok(*bx, *item),
            ItemsField::Many(ss) => union_norm_ok(ss, None, *item),
            ItemsField::Missing => item.body is Any && !item.nullable && item.description
                is None,
        }),
    })
}

proof fn lemma_count_opts_mono(opts: Seq<RawSchema>, a: int, b: int)
    requires
        0 <= a <= b <= opts.len(),
    ensures
        spec_count_non_null_opts(opts.subrange(0, a)) <= spec_count_non_null_opts(
            opts.subrange(0, b),
        ),
    decreases b - a,
{
    if a < b {
        lemma_count_non_null_opts_step(opts, b - 1);
        lemma_count_opts_mono(opts, a, b - 1);
    }
}

proof fn lemma_count_tys_mono(ts: Seq<InstanceTy>, a: int, b: int)
    requires
        0 <= a <= b <= ts.len(),
    ensures
        spec_count_non_null(ts.subrange(0, a)) <= spec_count_non_null(ts.subrange(0, b)),
    decreases b - a,
{
    if a < b {
        lemma_count_non_null_step(ts, b - 1);
        lemma_count_tys_mono(ts, a, b - 1);
    }
}

/// Lower node `n`, taken with the single concrete instance type `t`, to
/// its normalized variant.
#[verifier::loop_isolation(false)]
#[verifier::rlimit(100)]
#[verifier::spinoff_prover]
fn dispatch_single(n: &RawNode, t: InstanceTy, nullable: bool) -> (r: SchemaNode)
    ensures
        wf_node(r),
        kind_of(r.body) == spec_single_kind(*n, t),
        r.nullable == if t is Null {
            true
        } else {
            nullable
        },
        single_norm_ok(*n, t, nullable, r),
    decreases *n, 2int,
{
    proof {
        reveal_with_fuel(wf_body, 3);
    }
    let description = clone_opt_string(&n.description);
    match t {
        InstanceTy::Null => SchemaNode {
            // the bare null type admits exactly null
            nullable: true,
            description,
            body: SchemaBody::Any,
        },
        InstanceTy::Boolean => SchemaNode { nullable, description, body: SchemaBody::Bool },
        InstanceTy::Number => {
            match &n.enum_values {
                Some(vals) => {
                    let options = filter_number_options(vals);
                    if options.len() > 0 {
                        SchemaNode { nullable, description, body: SchemaBody::Enum { options } }
                    } else {
                        SchemaNode { nullable, description, body: SchemaBody::Number }
                    }
                },
                None => SchemaNode { nullable, description, body: SchemaBody::Number },
            }
        },
        InstanceTy::Integer => {
            match &n.enum_values {
                Some(vals) => {
                    let options = filter_number_options(vals);
                    if options.len() > 0 {
                        SchemaNode { nullable, description, body: SchemaBody::Enum { options } }
                    } else {
                        SchemaNode { nullable, description, body: SchemaBody::Int }
                    }
                },
                None => SchemaNode { nullable, description, body: SchemaBody::Int },
            }
        },
        InstanceTy::Str => {
            match &n.enum_values {
                Some(vals) => {
                    let options = filter_string_options(vals);
                    if options.len() > 0 {
                        SchemaNode { nullable, description, body: SchemaBody::Enum { options } }
                    } else {
                        SchemaNode { nullable, description, body: SchemaBody::Str }
                    }
                },
                None => SchemaNode { nullable, description, body: SchemaBody::Str },
            }
        },
        InstanceTy::Object => {
            match &n.object {
                Some(rules) => {
                    if rules.properties.len() == 0 {
                        let value = match &rules.additional {
                            Some(a) => {
                                proof {
                                    let nn = *n;
                                    assert(decreases_to!(nn => nn.object));
                                    assert(decreases_to!(nn.object => nn.object->0));
                                    let ru = *nn.object->0;
                                    assert(decreases_to!(ru => ru.additional));
                                    assert(decreases_to!(ru.additional => ru.additional->0));
                                }
                                normalize(&**a)
                            },
                            None => SchemaNode {
                                nullable: false,
                                description: None,
                                body: SchemaBody::Any,
                            },
                        };
                        SchemaNode {
                            nullable,
                            description,
                            body: SchemaBody::Mapping { value: Box::new(value) },
                        }
                    } else {
                        let ty_name = match &n.ext_type_name {
                            Some(tn) => tn.clone(),
                            None => String::new(),
                        };
                        let mut properties: Vec<Property> = Vec::new();
                        let mut i: usize = 0;
                        while i < rules.properties.len()
                            invariant
                                i <= rules.properties@.len(),
                                properties@.len() == i,
                                forall|k: int|
                                    0 <= k < properties@.len() ==> wf_node(
                                        #[trigger] properties@[k].schema,
                                    ),
                                forall|k: int|
                                    0 <= k < properties@.len() ==> (
                                    #[trigger] properties@[k]).name == rules.properties@[k].0,
                                forall|k: int|
                                    0 <= k < properties@.len() ==> norm_ok(
                                        (#[trigger] rules.properties@[k]).1,
                                        properties@[k].schema,
                                    ),
                            decreases rules.properties@.len() - i,
                        {
                            proof {
                                let nn = *n;
                                assert(decreases_to!(nn => nn.object));
                                assert(decreases_to!(nn.object => nn.object->0));
                                let ru = *nn.object->0;
                                assert(decreases_to!(ru => ru.properties));
                                let ps = ru.properties@;
                                let k = i as int;
                                assert(decreases_to!(ru.properties => ru.properties@));
                                assert(decreases_to!(ps => ps[k]));
                                assert(decreases_to!(ps[k] => ps[k].1));
                            }
                            let name = rules.properties[i].0.clone();
                            let schema = normalize(&rules.properties[i].1);
                            properties.push(Property { name, schema });
                            i = i + 1;
                        }
                        let mut required: Vec<String> = Vec::new();
                        let mut j: usize = 0;
                        while j < rules.required.len()
                            invariant
                                j <= rules.required@.len(),
                                required@.len() == j,
                                forall|k: int|
                                    0 <= k < required@.len() ==> (#[trigger] required@[k])
                                        == rules.required@[k],
                            decreases rules.required@.len() - j,
                        {
                            required.push(rules.required[j].clone());
                            j = j + 1;
                        }
                        let additional = match &rules.additional {
                            Some(a) => {
                                proof {
                                    let nn = *n;
                                    assert(decreases_to!(nn => nn.object));
                                    assert(decreases_to!(nn.object => nn.object->0));
                                    let ru = *nn.object->0;
                                    assert(decreases_to!(ru => ru.additional));
                                    assert(decreases_to!(ru.additional => ru.additional->0));
                                }
                                Some(Box::new(normalize(&**a)))
                            },
                            None => None,
                        };
                        SchemaNode {
                            nullable,
                            description,
                            body: SchemaBody::Object { ty_name, properties, required, additional },
                        }
                    }
                },
                None => SchemaNode {
                    nullable,
                    description,
                    body: SchemaBody::Mapping {
                        value: Box::new(
                            SchemaNode {
                                nullable: false,
                                description: None,
                                body: SchemaBody::Any,
                            },
                        ),
                    },
                },
            }
        },
        InstanceTy::Array => {
            match &n.array {
                Some(ar) => {
                    let item = match &ar.items {
                        ItemsField::Single(bx) => {
                            proof {
                                let nn = *n;
                                assert(decreases_to!(nn => nn.array));
                                assert(decreases_to!(nn.array => nn.array->0));
                                let au = *nn.array->0;
                                assert(decreases_to!(au => au.items));
                                assert(decreases_to!(au.items => au.items->Single_0));
                            }
                            normalize(&**bx)
                        },
                        ItemsField::Many(ss) => {
                            proof {
                                let nn = *n;
                                assert(decreases_to!(nn => nn.array));
                                assert(decreases_to!(nn.array => nn.array->0));
                                let au = *nn.array->0;
                                assert(decreases_to!(au => au.items));
                                assert(decreases_to!(au.items => au.items->Many_0));
                            }
                            normalize_union(ss, None)
                        },
                        ItemsField::Missing => SchemaNode {
                            nullable: false,
                            description: None,
                            body: SchemaBody::Any,
                        },
                    };
                    SchemaNode {
                        nullable,
                        description,
                        body: SchemaBody::Array { item: Box::new(item) },
                    }
                },
                None => SchemaNode { nullable, description, body: SchemaBody::Any },
            }
        },
    }
}

/// Lower a node whose `type` keyword is a list: a lone non-null member
/// keeps its variant with `null` lifted into the flag, several become a
/// union of the members, and a list of nothing but `null` degrades to a
/// nullable `Any`.
#[verifier::loop_isolation(false)]
#[verifier::rlimit(100)]
#[verifier::spinoff_prover]
fn normalize_many(n: &RawNode, ts: &Vec<InstanceTy>) -> (r: SchemaNode)
    ensures
        wf_node(r),
        kind_of(r.body) == ({
            let cnt = spec_count_non_null(ts@);
            if cnt == 0 {
                SchemaKind::Any
            } else if cnt == 1 {
                spec_single_kind(*n, spec_first_non_null(ts@))
            } else {
                SchemaKind::Union
            }
        }),
        r.nullable == ({
            let cnt = spec_count_non_null(ts@);
            if cnt == 0 {
                ts@.len() > 0
            } else if cnt == 1 {
                ts@.len() > 1
            } else {
                spec_tys_have_null(ts@)
            }
        }),
        spec_count_non_null(ts@) == 0 ==> r.body is Any && r.description == n.description,
        spec_count_non_null(ts@) == 1 ==> single_norm_ok(
            *n,
            spec_first_non_null(ts@),
            ts@.len() > 1,
            r,
        ),
        spec_count_non_null(ts@) > 1 ==> r.description is None && (r.body
            matches SchemaBody::Union { members } && {
            &&& members@.len() == spec_count_non_null(ts@)
            &&& forall|k: int|
                0 <= k < ts@.len() && !((#[trigger] ts@[k]) is Null) ==> single_norm_ok(
                    *n,
                    ts@[k],
                    false,
                    members@[spec_count_non_null(ts@.subrange(0, k)) as int],
                )
        }),
    decreases *n, 3int,
{
    let mut cnt: usize = 0;
    let mut has_null: bool = false;
    let mut first_idx: usize = 0;
    let mut i: usize = 0;
    while i < ts.len()
        invariant
            i <= ts@.len(),
            cnt == spec_count_non_null(ts@.subrange(0, i as int)),
            cnt <= i,
            has_null == spec_tys_have_null(ts@.subrange(0, i as int)),
            cnt > 0 ==> first_idx < i && !(ts@[first_idx as int] is Null)
                && forall|j: int|
                0 <= j < first_idx ==> (#[trigger] ts@[j]) is Null,
        decreases ts@.len() - i,
    {
        proof {
            lemma_count_non_null_step(ts@, i as int);
            lemma_tys_have_null_step(ts@, i as int);
            if cnt == 0 {
                lemma_count_zero_all_null(ts@, i as int);
            }
        }
        if !matches!(ts[i], InstanceTy::Null) {
            if cnt == 0 {
                first_idx = i;
            }
            cnt = cnt + 1;
        } else {
            has_null = true;
        }
        i = i + 1;
    }
    proof {
        assert(ts@.subrange(0, ts@.len() as int) =~= ts@);
    }
    if cnt == 0 {
        SchemaNode {
            nullable: ts.len() > 0,
            description: clone_opt_string(&n.description),
            body: SchemaBody::Any,
        }
    } else if cnt == 1 {
        proof {
            lemma_first_non_null_at(ts@, first_idx as int);
        }
        dispatch_single(n, ts[first_idx], ts.len() > 1)
    } else {
        let mut members: Vec<SchemaNode> = Vec::new();
        let mut k: usize = 0;
        while k < ts.len()
            invariant
                k <= ts@.len(),
                members@.len() == spec_count_non_null(
                    ts@.subrange(0, k as int),
                ),
                forall|j: int|
                    0 <= j < members@.len() ==> wf_node(
                        #[trigger] members@[j],
                    ),
                forall|j: int|
                    0 <= j < k && !((#[trigger] ts@[j]) is Null)
                        ==> single_norm_ok(
                        *n,
                        ts@[j],
                        false,
                        members@[spec_count_non_null(
                            ts@.subrange(0, j),
                        ) as int],
                    ),
            decreases ts@.len() - k,
        {
            proof {
                lemma_count_non_null_step(ts@, k as int);
            }
            if !matches!(ts[k], InstanceTy::Null) {
                let m = dispatch_single(n, ts[k], false);
                members.push(m);
            }
            k = k + 1;
            proof {
                assert forall|j: int|
                    0 <= j < k && !((#[trigger] ts@[j]) is Null)
                        implies single_norm_ok(
                    *n,
                    ts@[j],
                    false,
                    members@[spec_count_non_null(
                        ts@.subrange(0, j),
                    ) as int],
                ) by {
                    lemma_count_non_null_step(ts@, j);
                    if j < k - 1 {
                        lemma_count_tys_mono(ts@, j + 1, k - 1);
                    }
                }
            }
        }
        proof {
            assert(ts@.subrange(0, ts@.len() as int) =~= ts@);
        }
        SchemaNode {
            nullable: has_null,
            description: None,
            body: SchemaBody::Union { members },
        }
    }
}

/// Lower a raw schema to its normalized node.  Subschema unions come
/// first, then `$ref`, then the `type` keyword; a type list is treated as
/// a union of its members with `null` lifted into the flag.
#[verifier::loop_isolation(false)]
#[verifier::rlimit(100)]
#[verifier::spinoff_prover]
pub fn normalize(s: &RawSchema) -> (r: SchemaNode)
    ensures
        wf_node(r),
        kind_of(r.body) == spec_raw_kind(*s),
        r.nullable == spec_raw_nullable(*s),
        norm_ok(*s, r),
    decreases *s, 3int,
{
    proof {
        reveal_with_fuel(wf_body, 3);
    }
    match s {
        RawSchema::Flag(_) => SchemaNode {
            nullable: false,
            description: None,
            body: SchemaBody::Any,
        },
        RawSchema::Node(n) => {
            proof {
                let ss = *s;
                assert(decreases_to!(ss => ss->Node_0));
            }
            if let Some(sub) = &n.subschemas {
                let description = clone_opt_string(&n.description);
                proof {
                    let ss = *s;
                    let bn = ss->Node_0;
                    assert(decreases_to!(bn => bn.subschemas));
                    assert(decreases_to!(bn.subschemas => bn.subschemas->0));
                }
                match (&sub.one_of, &sub.any_of) {
                    (Some(opts), None) => {
                        proof {
                            let ss = *s;
                            let sb = *ss->Node_0.subschemas->0;
                            assert(decreases_to!(sb => sb.one_of));
                            assert(decreases_to!(sb.one_of => sb.one_of->0));
                        }
                        normalize_union(opts, description)
                    },
                    (None, Some(opts)) => {
                        proof {
                            let ss = *s;
                            let sb = *ss->Node_0.subschemas->0;
                            assert(decreases_to!(sb => sb.any_of));
                            assert(decreases_to!(sb.any_of => sb.any_of->0));
                        }
                        normalize_union(opts, description)
                    },
                    _ => SchemaNode { nullable: false, description, body: SchemaBody::Any },
                }
            } else if let Some(refstr) = &n.reference {
                let key = last_segment(refstr.as_str());
                let nullable = check_nullable(&n.ty);
                SchemaNode {
                    nullable,
                    description: clone_opt_string(&n.description),
                    body: SchemaBody::Ref { key },
                }
            } else {
                match &n.ty {
                    TypeField::Missing => SchemaNode {
                        nullable: false,
                        description: clone_opt_string(&n.description),
                        body: SchemaBody::Any,
                    },
                    TypeField::Single(t) => dispatch_single(n, *t, false),
                    TypeField::Many(ts) => normalize_many(n, ts),
                }
            }
        },
    }
}

} // verus!
