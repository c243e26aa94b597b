//! The mutations that apply the analysis to the dataset, as update texts:
//! keeping the surviving types, deleting a predicate of a class, and
//! demoting the weaker of two types that one entity carries.

use vstd::prelude::*;
use crate::graph::Ratio;
use crate::store::KG;
use crate::text::{append_chars, chars_of, string_of};

verus! {

/// What stands before the list of classes in the update that keeps them.
pub const KEEP_TYPES_HEAD: &'static str =
    "\nDELETE {\n    ?s a ?t .\n        }\nWHERE {\n    ?s a ?t .\n    FILTER( !(\n        ?t IN (\n        ";

/// What stands after the list of classes in the update that keeps them.
pub const KEEP_TYPES_TAIL: &'static str = "\n        )\n    ))\n        }\n        \n        ";

/// The routine that removes the entities left without a type.
pub const REMOVE_TYPELESS: &'static str = "general.sparql::Remove entities withot type@advanced";

/// The query for one pair of distinct types on one entity.
pub const CONFLICT_QUERY: &'static str =
    "\n        SELECT DISTINCT ?t1 ?t2  {{\n            ?s a ?t1.\n            ?s a ?t2.\n            FILTER (?t1!=?t2)\n        }}\n        LIMIT 1\n        ";

/// The predicate under which a demoted type is kept.
pub const ADDITIONAL_TYPE: &'static str = "<http://schema.org/additionaltype>";

/// The first `upto` items, with `sep` between neighbours.
pub open spec fn joined(items: Seq<String>, sep: Seq<char>, upto: int) -> Seq<char>
    decreases upto,
{
    if upto <= 0 {
        Seq::empty()
    } else if upto == 1 {
        items[0]@
    } else {
        joined(items, sep, upto - 1) + sep + items[upto - 1]@
    }
}

/// The update that deletes every type assertion whose class is not one of
/// `keep`.
pub open spec fn keep_types_text(keep: Seq<String>) -> Seq<char> {
    KEEP_TYPES_HEAD@ + joined(keep, ","@, keep.len() as int) + KEEP_TYPES_TAIL@
}

/// The update that deletes `pred` from the instances of `otype`.
pub open spec fn delete_predicate_text(otype: Seq<char>, pred: Seq<char>) -> Seq<char> {
    "\n            DELETE {\n                ?s "@ + pred
        + " ?pval.\n            }\n            WHERE {\n                ?s a "@ + otype
        + ".\n                ?s "@ + pred + " ?pval.\n            }\n        \n        "@
}

/// The update that, on every entity typed both `keep` and `skip`, replaces
/// the type `skip` by an additional-type statement.
pub open spec fn demote_text(keep: Seq<char>, skip: Seq<char>) -> Seq<char> {
    "\n                        DELETE {\n                            ?s a "@ + skip
        + ".\n                        }\n                        INSERT {\n                            ?s "@
        + ADDITIONAL_TYPE@ + " "@ + skip
        + ".\n                        }\n                        WHERE {\n                            ?s a "@
        + skip + ".\n                            ?s a "@ + keep
        + ".\n                        }\n                    \n                    "@
}

/// The history line that records an update.
pub open spec fn history_text(query: Seq<char>) -> Seq<char> {
    "```sparql\n"@ + query + "\n```"@
}

/// Whether fraction `a` is greater than fraction `b`.
pub open spec fn ratio_above(a: Ratio, b: Ratio) -> bool {
    a.num * b.den > b.num * a.den
}

/// Joins `items` with `sep` between neighbours.
pub fn join(items: &Vec<String>, sep: &str) -> (out: Vec<char>)
    ensures
        out@ == joined(items@, sep@, items.len() as int),
{
    let mut out: Vec<char> = Vec::new();
    let separator = chars_of(sep);
    let mut i: usize = 0;
    while i < items.len()
        invariant
            i <= items.len(),
            separator@ == sep@,
            out@ == joined(items@, sep@, i as int),
        decreases items.len() - i,
    {
        if i > 0 {
            append_chars(&mut out, &separator);
        }
        append_chars(&mut out, &chars_of(items[i].as_str()));
        i += 1;
        assert(out@ =~= joined(items@, sep@, i as int));
    }
    out
}

/// The history line that records `query`.
pub fn history_block(query: &str) -> (line: String)
    ensures
        line@ == history_text(query@),
{
    let mut out = chars_of("```sparql\n");
    append_chars(&mut out, &chars_of(query));
    append_chars(&mut out, &chars_of("\n```"));
    string_of(&out)
}

/// The product of `n` and `d` in two parts: `n * d == high * 2^64 + low`.
fn wide_product(n: u64, d: u128) -> (r: (u128, u64))
    ensures
        n * d == r.0 * 0x1_0000_0000_0000_0000 + r.1,
{
    let d_high: u128 = d >> 64;
    let d_low: u128 = d & 0xffff_ffff_ffff_ffff;
    assert(d == d_high * 0x1_0000_0000_0000_0000 + d_low && d_high <= 0xffff_ffff_ffff_ffff && d_low
        <= 0xffff_ffff_ffff_ffff) by (bit_vector)
        requires
            d_high == d >> 64,
            d_low == d & 0xffff_ffff_ffff_ffff,
    ;
    assert(n * d_low <= 0xffff_ffff_ffff_ffff * 0xffff_ffff_ffff_ffff) by (nonlinear_arith)
        requires
            0 <= n <= 0xffff_ffff_ffff_ffff,
            0 <= d_low <= 0xffff_ffff_ffff_ffff,
    ;
    assert(n * d_high <= 0xffff_ffff_ffff_ffff * 0xffff_ffff_ffff_ffff) by (nonlinear_arith)
        requires
            0 <= n <= 0xffff_ffff_ffff_ffff,
            0 <= d_high <= 0xffff_ffff_ffff_ffff,
    ;
    let p: u128 = (n as u128) * d_low;
    let q: u128 = (n as u128) * d_high;
    let carry: u128 = p >> 64;
    let low: u128 = p & 0xffff_ffff_ffff_ffff;
    assert(p == carry * 0x1_0000_0000_0000_0000 + low && carry <= 0xffff_ffff_ffff_ffff && low
        <= 0xffff_ffff_ffff_ffff) by (bit_vector)
        requires
            carry == p >> 64,
            low == p & 0xffff_ffff_ffff_ffff,
    ;
    assert(n * d == (q + carry) * 0x1_0000_0000_0000_0000 + low) by (nonlinear_arith)
        requires
            d == d_high * 0x1_0000_0000_0000_0000 + d_low,
            p == n * d_low,
            q == n * d_high,
            p == carry * 0x1_0000_0000_0000_0000 + low,
    ;
    (q + carry, low as u64)
}

/// Tests whether fraction `a` is greater than fraction `b`.
pub fn is_ratio_above(a: Ratio, b: Ratio) -> (r: bool)
    ensures
        r == ratio_above(a, b),
{
    let left = wide_product(a.num, b.den);
    let right = wide_product(b.num, a.den);
    assert((left.0 > right.0 || (left.0 == right.0 && left.1 > right.1)) <==> (left.0
        * 0x1_0000_0000_0000_0000 + left.1 > right.0 * 0x1_0000_0000_0000_0000 + right.1))
        by (nonlinear_arith)
        requires
            0 <= left.1 < 0x1_0000_0000_0000_0000,
            0 <= right.1 < 0x1_0000_0000_0000_0000,
            0 <= left.0,
            0 <= right.0,
    ;
    left.0 > right.0 || (left.0 == right.0 && left.1 > right.1)
}

/// What to do about duplicate types next.
#[derive(Debug)]
pub enum Resolution {
    /// No entity carries two types: the dataset is settled.
    Settled,
    /// Run `update`, which keeps `keep` and demotes `skip`, then look again.
    Demote { keep: String, skip: String, update: String },
}

impl KG {
    /// The update that keeps the type assertions of the classes in `keep`
    /// and deletes all others.
    pub fn keep_types(&self, keep: &Vec<String>) -> (query: String)
        ensures
            query@ == keep_types_text(keep@),
    {
        let mut out = chars_of(KEEP_TYPES_HEAD);
        let filter = join(keep, ",");
        append_chars(&mut out, &filter);
        append_chars(&mut out, &chars_of(KEEP_TYPES_TAIL));
        string_of(&out)
    }

    /// The update that deletes the predicate `pred` from the instances of
    /// the class `otype`.
    pub fn delete_predicate(&self, otype: &str, pred: &str) -> (query: String)
        ensures
            query@ == delete_predicate_text(otype@, pred@),
    {
        let p = chars_of(pred);
        let mut out = chars_of("\n            DELETE {\n                ?s ");
        append_chars(&mut out, &p);
        append_chars(&mut out, &chars_of(" ?pval.\n            }\n            WHERE {\n                ?s a "));
        append_chars(&mut out, &chars_of(otype));
        append_chars(&mut out, &chars_of(".\n                ?s "));
        append_chars(&mut out, &p);
        append_chars(&mut out, &chars_of(" ?pval.\n            }\n        \n        "));
        string_of(&out)
    }

    /// One step of the duplicate-type resolution.
    ///
    /// `conflict` is what the conflict query found: two distinct types of
    /// one entity with their class scores, or nothing. The type with the
    /// higher score is kept and the other demoted; of two equal scores the
    /// second type is kept.
    pub fn fix_types(&self, conflict: Option<(String, Ratio, String, Ratio)>) -> (r: Resolution)
        ensures
            conflict is None <==> r is Settled,
            conflict matches Some(c) ==> r matches Resolution::Demote { keep, skip, update } && {
                &&& keep@ == if ratio_above(c.1, c.3) {
                    c.0@
                } else {
                    c.2@
                }
                &&& skip@ == if ratio_above(c.1, c.3) {
                    c.2@
                } else {
                    c.0@
                }
                &&& update@ == demote_text(keep@, skip@)
            },
    {
        match conflict {
            None => Resolution::Settled,
            Some(c) => {
                let (first, first_score, second, second_score) = c;
                let (keep, skip) = if is_ratio_above(first_score, second_score) {
                    (first, second)
                } else {
                    (second, first)
                };
                let k = chars_of(keep.as_str());
                let s = chars_of(skip.as_str());
                let mut out = chars_of("\n                        DELETE {\n                            ?s a ");
                append_chars(&mut out, &s);
                append_chars(
                    &mut out,
                    &chars_of(
                        ".\n                        }\n                        INSERT {\n                            ?s ",
                    ),
                );
                append_chars(&mut out, &chars_of(ADDITIONAL_TYPE));
                append_chars(&mut out, &chars_of(" "));
                append_chars(&mut out, &s);
                append_chars(
                    &mut out,
                    &chars_of(
                        ".\n                        }\n                        WHERE {\n                            ?s a ",
                    ),
                );
                append_chars(&mut out, &s);
                append_chars(&mut out, &chars_of(".\n                            ?s a "));
                append_chars(&mut out, &k);
                append_chars(
                    &mut out,
                    &chars_of(".\n                        }\n                    \n                    "),
                );
                let update = string_of(&out);
                Resolution::Demote { keep, skip, update }
            },
        }
    }
}

} // verus!
