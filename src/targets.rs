use vstd::prelude::*;
use crate::catalog::Catalog;
use crate::context::DecodeContext;
use crate::decode::{
    values_view,
    decode_object, into_bool, into_i16, into_i32, into_json_string_map, into_str, into_uuid, lemma_values_of_each, object_values, take_last, values_of,
    FieldModel,
};
use crate::error::{check_view, DecodeError, DescriptorMismatch, ScalarType};
use crate::scalar::{decode_json_text, json_text_of, pairs_view};
use crate::shape::{check_shape, decls_of, shape_check, FieldDecl, TargetField};
use crate::wire::visible_elements;

verus! {

pub open spec fn required(name: Seq<char>, ty: ScalarType) -> FieldDecl {
    FieldDecl { name, ty, optional: false }
}

fn required_field(name: &str, ty: ScalarType) -> (r: TargetField)
    ensures
        r@ == required(name@, ty),
{
    TargetField { name: name.to_string(), ty, optional: false }
}

/// A record with a text, a small integer and a flag.
#[derive(Debug, Clone)]
pub struct IsAStruct {
    pub name: String,
    pub number: i16,
    pub is_cool: bool,
}

pub open spec fn is_a_struct_decls() -> Seq<FieldDecl> {
    seq![
        required("name"@, ScalarType::Str),
        required("number"@, ScalarType::Int16),
        required("is_cool"@, ScalarType::Bool),
    ]
}

impl IsAStruct {
    pub open spec fn model(&self) -> Seq<FieldModel> {
        seq![FieldModel::Str(self.name@), FieldModel::Int16(self.number), FieldModel::Bool(self.is_cool)]
    }

    /// The declared fields, in order.
    pub fn target_fields() -> (r: Vec<TargetField>)
        ensures
            decls_of(r@) == is_a_struct_decls(),
    {
        let r = vec![
            required_field("name", ScalarType::Str),
            required_field("number", ScalarType::Int16),
            required_field("is_cool", ScalarType::Bool),
        ];
        assert(decls_of(r@) =~= is_a_struct_decls());
        r
    }

    /// Decodes one row.
    pub fn decode(ctx: &DecodeContext, buf: &[u8]) -> (r: Result<Self, DecodeError>)
        ensures
            match object_values(*ctx, buf@, is_a_struct_decls()) {
                Ok(vs) => r matches Ok(v) && v.model() == vs,
                Err(e) => r == Err::<Self, DecodeError>(e),
            },
    {
        let fields = Self::target_fields();
        let mut vals = match decode_object(ctx, buf, &fields) {
            Ok(v) => v,
            Err(e) => return Err(e),
        };
        let ghost decls = is_a_struct_decls();
        let ghost els = visible_elements(*ctx, buf@, 3)->Ok_0;
        proof {
            lemma_values_of_each(decls, els, 3);
        }
        let ghost vs = values_of(decls, els, 3)->Ok_0;
        assert(decls[0].ty == ScalarType::Str && decls[1].ty == ScalarType::Int16 && decls[2].ty == ScalarType::Bool);
        assert(vals@[0]@ == vs[0] && vals@[1]@ == vs[1] && vals@[2]@ == vs[2]);
        let is_cool = into_bool(take_last(&mut vals));
        let number = into_i16(take_last(&mut vals));
        let name = into_str(take_last(&mut vals));
        let r = IsAStruct { name, number, is_cool };
        assert(r.model() =~= vs);
        Ok(r)
    }

    /// Checks the object shape at `pos` against the declared fields.
    pub fn check_descriptor(cat: &Catalog, ctx: &DecodeContext, pos: u16) -> (r: Result<(), DescriptorMismatch>)
        ensures
            check_view(r) == shape_check(cat.descriptors@, *ctx, pos, is_a_struct_decls()),
    {
        check_shape(cat, ctx, pos, &Self::target_fields())
    }
}

/// An account as its JSON form gives it: a user name and the sixteen bytes
/// of its id.
#[derive(Debug, Clone)]
pub struct Account {
    pub username: String,
    pub id: Vec<u8>,
}

/// An account decoded from the binary row format; the server must send its
/// fields in the order `username`, `id`.
#[derive(Debug, Clone)]
pub struct QueryableAccount {
    pub username: String,
    pub id: Vec<u8>,
}

pub open spec fn queryable_account_decls() -> Seq<FieldDecl> {
    seq![required("username"@, ScalarType::Str), required("id"@, ScalarType::Uuid)]
}

impl QueryableAccount {
    pub open spec fn model(&self) -> Seq<FieldModel> {
        seq![FieldModel::Str(self.username@), FieldModel::Uuid(self.id@)]
    }

    /// The declared fields, in order.
    pub fn target_fields() -> (r: Vec<TargetField>)
        ensures
            decls_of(r@) == queryable_account_decls(),
    {
        let r = vec![required_field("username", ScalarType::Str), required_field("id", ScalarType::Uuid)];
        assert(decls_of(r@) =~= queryable_account_decls());
        r
    }

    /// Decodes one row.
    pub fn decode(ctx: &DecodeContext, buf: &[u8]) -> (r: Result<Self, DecodeError>)
        ensures
            match object_values(*ctx, buf@, queryable_account_decls()) {
                Ok(vs) => r matches Ok(v) && v.model() == vs,
                Err(e) => r == Err::<Self, DecodeError>(e),
            },
    {
        let fields = Self::target_fields();
        let mut vals = match decode_object(ctx, buf, &fields) {
            Ok(v) => v,
            Err(e) => return Err(e),
        };
        let ghost decls = queryable_account_decls();
        let ghost els = visible_elements(*ctx, buf@, 2)->Ok_0;
        proof {
            lemma_values_of_each(decls, els, 2);
        }
        let ghost vs = values_of(decls, els, 2)->Ok_0;
        assert(decls[0].ty == ScalarType::Str && decls[1].ty == ScalarType::Uuid);
        assert(vals@[0]@ == vs[0] && vals@[1]@ == vs[1]);
        let id = into_uuid(take_last(&mut vals));
        let username = into_str(take_last(&mut vals));
        let r = QueryableAccount { username, id };
        assert(r.model() =~= vs);
        Ok(r)
    }

    /// Checks the object shape at `pos` against the declared fields.
    pub fn check_descriptor(cat: &Catalog, ctx: &DecodeContext, pos: u16) -> (r: Result<(), DescriptorMismatch>)
        ensures
            check_view(r) == shape_check(cat.descriptors@, *ctx, pos, queryable_account_decls()),
    {
        check_shape(cat, ctx, pos, &Self::target_fields())
    }
}

/// An account that the server sends as one JSON document.
#[derive(Debug, Clone)]
pub struct JsonQueryableAccount {
    pub username: String,
    pub id: Vec<u8>,
}

impl JsonQueryableAccount {
    /// The JSON text of one row, which holds the whole account.
    pub fn decode_text(buf: &[u8]) -> (r: Result<String, DecodeError>)
        ensures
            match json_text_of(buf@) {
                Ok(t) => r matches Ok(v) && v@ == t,
                Err(e) => r == Err::<String, DecodeError>(e),
            },
    {
        decode_json_text(buf)
    }

    /// Checks that the descriptor at `pos` is the JSON scalar type.
    pub fn check_descriptor(cat: &Catalog, pos: u16) -> (r: Result<(), DescriptorMismatch>)
        ensures
            check_view(r) == crate::catalog::scalar_check(
                cat.descriptors@,
                pos,
                ScalarType::Json,
                cat.descriptors@.len(),
            ),
    {
        cat.check_scalar(pos, ScalarType::Json)
    }
}

/// An account with one field that the server sends as a JSON object of
/// strings; its pairs are kept in key order.
#[derive(Debug, Clone)]
pub struct InnerJsonQueryableAccount {
    pub username: String,
    pub id: Vec<u8>,
    pub some_json: Vec<(String, String)>,
}

pub open spec fn inner_json_account_decls() -> Seq<FieldDecl> {
    seq![
        required("username"@, ScalarType::Str),
        required("id"@, ScalarType::Uuid),
        required("some_json"@, ScalarType::JsonStringMap),
    ]
}

impl InnerJsonQueryableAccount {
    pub open spec fn model(&self) -> Seq<FieldModel> {
        seq![
            FieldModel::Str(self.username@),
            FieldModel::Uuid(self.id@),
            FieldModel::JsonStringMap(pairs_view(self.some_json@)),
        ]
    }

    /// The declared fields, in order.
    pub fn target_fields() -> (r: Vec<TargetField>)
        ensures
            decls_of(r@) == inner_json_account_decls(),
    {
        let r = vec![
            required_field("username", ScalarType::Str),
            required_field("id", ScalarType::Uuid),
            required_field("some_json", ScalarType::JsonStringMap),
        ];
        assert(decls_of(r@) =~= inner_json_account_decls());
        r
    }

    /// Decodes one row.
    pub fn decode(ctx: &DecodeContext, buf: &[u8]) -> (r: Result<Self, DecodeError>)
        ensures
            match object_values(*ctx, buf@, inner_json_account_decls()) {
                Ok(vs) => r matches Ok(v) && v.model() == vs,
                Err(e) => r == Err::<Self, DecodeError>(e),
            },
    {
        let fields = Self::target_fields();
        let mut vals = match decode_object(ctx, buf, &fields) {
            Ok(v) => v,
            Err(e) => return Err(e),
        };
        let ghost decls = inner_json_account_decls();
        let ghost els = visible_elements(*ctx, buf@, 3)->Ok_0;
        proof {
            lemma_values_of_each(decls, els, 3);
        }
        let ghost vs = values_of(decls, els, 3)->Ok_0;
        assert(decls[0].ty == ScalarType::Str && decls[1].ty == ScalarType::Uuid && decls[2].ty
            == ScalarType::JsonStringMap);
        assert(vals@[0]@ == vs[0] && vals@[1]@ == vs[1] && vals@[2]@ == vs[2]);
        let some_json = into_json_string_map(take_last(&mut vals));
        let id = into_uuid(take_last(&mut vals));
        let username = into_str(take_last(&mut vals));
        let r = InnerJsonQueryableAccount { username, id, some_json };
        assert(r.model() =~= vs);
        Ok(r)
    }

    /// Checks the object shape at `pos` against the declared fields.
    pub fn check_descriptor(cat: &Catalog, ctx: &DecodeContext, pos: u16) -> (r: Result<(), DescriptorMismatch>)
        ensures
            check_view(r) == shape_check(cat.descriptors@, *ctx, pos, inner_json_account_decls()),
    {
        check_shape(cat, ctx, pos, &Self::target_fields())
    }
}

/// A bank customer: a name and a balance in cents.
#[derive(Debug, Clone)]
pub struct BankCustomer {
    pub name: String,
    pub bank_balance: i32,
}

pub open spec fn bank_customer_decls() -> Seq<FieldDecl> {
    seq![required("name"@, ScalarType::Str), required("bank_balance"@, ScalarType::Int32)]
}

impl BankCustomer {
    pub open spec fn model(&self) -> Seq<FieldModel> {
        seq![FieldModel::Str(self.name@), FieldModel::Int32(self.bank_balance)]
    }

    /// The declared fields, in order.
    pub fn target_fields() -> (r: Vec<TargetField>)
        ensures
            decls_of(r@) == bank_customer_decls(),
    {
        let r = vec![required_field("name", ScalarType::Str), required_field("bank_balance", ScalarType::Int32)];
        assert(decls_of(r@) =~= bank_customer_decls());
        r
    }

    /// Decodes one row.
    pub fn decode(ctx: &DecodeContext, buf: &[u8]) -> (r: Result<Self, DecodeError>)
        ensures
            match object_values(*ctx, buf@, bank_customer_decls()) {
                Ok(vs) => r matches Ok(v) && v.model() == vs,
                Err(e) => r == Err::<Self, DecodeError>(e),
            },
    {
        let fields = Self::target_fields();
        let mut vals = match decode_object(ctx, buf, &fields) {
            Ok(v) => v,
            Err(e) => return Err(e),
        };
        let ghost decls = bank_customer_decls();
        let ghost els = visible_elements(*ctx, buf@, 2)->Ok_0;
        proof {
            lemma_values_of_each(decls, els, 2);
        }
        let ghost vs = values_of(decls, els, 2)->Ok_0;
        assert(decls[0].ty == ScalarType::Str && decls[1].ty == ScalarType::Int32);
        assert(vals@[0]@ == vs[0] && vals@[1]@ == vs[1]);
        let bank_balance = into_i32(take_last(&mut vals));
        let name = into_str(take_last(&mut vals));
        let r = BankCustomer { name, bank_balance };
        assert(r.model() =~= vs);
        Ok(r)
    }

    /// Checks the object shape at `pos` against the declared fields.
    pub fn check_descriptor(cat: &Catalog, ctx: &DecodeContext, pos: u16) -> (r: Result<(), DescriptorMismatch>)
        ensures
            check_view(r) == shape_check(cat.descriptors@, *ctx, pos, bank_customer_decls()),
    {
        check_shape(cat, ctx, pos, &Self::target_fields())
    }
}

} // verus!
