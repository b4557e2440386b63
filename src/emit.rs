use vstd::prelude::*;

use crate::resolve::{int_type_name, IntType, Resolved, ResolvedVariant};

verus! {

/// The text of one decimal digit.
pub open spec fn digit_text(d: nat) -> Seq<char> {
    if d == 0 {
        "0"@
    } else if d == 1 {
        "1"@
    } else if d == 2 {
        "2"@
    } else if d == 3 {
        "3"@
    } else if d == 4 {
        "4"@
    } else if d == 5 {
        "5"@
    } else if d == 6 {
        "6"@
    } else if d == 7 {
        "7"@
    } else if d == 8 {
        "8"@
    } else {
        "9"@
    }
}

/// A number written in base ten, without leading zeros.
pub open spec fn decimal_text(n: nat) -> Seq<char>
    decreases n,
{
    if n < 10 {
        digit_text(n)
    } else {
        decimal_text(n / 10) + digit_text(n % 10)
    }
}

fn digit_str(d: u128) -> (r: &'static str)
    requires
        d < 10,
    ensures
        r@ == digit_text(d as nat),
{
    if d == 0 {
        "0"
    } else if d == 1 {
        "1"
    } else if d == 2 {
        "2"
    } else if d == 3 {
        "3"
    } else if d == 4 {
        "4"
    } else if d == 5 {
        "5"
    } else if d == 6 {
        "6"
    } else if d == 7 {
        "7"
    } else if d == 8 {
        "8"
    } else {
        "9"
    }
}

/// Appends `n` written in base ten.
pub fn push_decimal(out: &mut String, n: u128)
    ensures
        final(out)@ == old(out)@ + decimal_text(n as nat),
    decreases n,
{
    if n >= 10 {
        push_decimal(out, n / 10);
        out.append(digit_str(n % 10));
        assert(out@ =~= old(out)@ + (decimal_text((n / 10) as nat) + digit_text((n % 10) as nat)));
    } else {
        out.append(digit_str(n));
    }
}

/// One table entry: the variant's constructor and its weight as a literal of
/// the shared type.
pub open spec fn item_text(e: Seq<char>, t: IntType, row: (Seq<char>, u128)) -> Seq<char> {
    "("@ + e + "::"@ + row.0 + ", "@ + decimal_text(row.1 as nat) + int_type_name(t) + "), "@
}

/// The table entries in order.
pub open spec fn items_text(e: Seq<char>, t: IntType, rows: Seq<(Seq<char>, u128)>) -> Seq<char>
    decreases rows.len(),
{
    if rows.len() == 0 {
        Seq::empty()
    } else {
        items_text(e, t, rows.drop_last()) + item_text(e, t, rows.last())
    }
}

/// The emitted sampler: an impl of the random crate's `Distribution` for the
/// declared type, which builds the table afresh on each call, draws an index with
/// `WeightedIndex`, and returns the variant at that index.
pub open spec fn sampler_text(
    rand: Seq<char>,
    e: Seq<char>,
    t: IntType,
    rows: Seq<(Seq<char>, u128)>,
) -> Seq<char> {
    "impl "@ + rand + "::distributions::Distribution<"@ + e + "> for "@ + rand
        + "::distributions::Standard {\n    fn sample<__R: "@ + rand
        + "::Rng + ?Sized>(&self, rng: &mut __R) -> "@ + e + " {\n        let mut items = vec!["@
        + items_text(e, t, rows) + "];\n        let weight_dist = "@ + rand
        + "::distributions::WeightedIndex::new(items.iter().map(|(_, weight)| weight)).unwrap();\n        let index = "@
        + rand + "::distributions::Distribution::sample(&weight_dist, rng);\n        items.swap_remove(index).0\n    }\n}\n"@
}

fn push_item(out: &mut String, e: &str, t: IntType, row: &ResolvedVariant)
    ensures
        final(out)@ == old(out)@ + item_text(e@, t, (row.name@, row.weight)),
{
    out.append("(");
    out.append(e);
    out.append("::");
    out.append(row.name.as_str());
    out.append(", ");
    push_decimal(out, row.weight);
    out.append(t.name());
    out.append("), ");
    assert(out@ =~= old(out)@ + item_text(e@, t, (row.name@, row.weight)));
}

/// Writes the sampler for the enum `enum_name` over a resolved table;
/// `rand_path` is the path by which the generated code reaches the random crate.
pub fn emit_sampler(rand_path: &str, enum_name: &str, res: &Resolved) -> (r: String)
    ensures
        r@ == sampler_text(rand_path@, enum_name@, res.weight_type, res.table()),
{
    let mut out = String::from_str("impl ");
    out.append(rand_path);
    out.append("::distributions::Distribution<");
    out.append(enum_name);
    out.append("> for ");
    out.append(rand_path);
    out.append("::distributions::Standard {\n    fn sample<__R: ");
    out.append(rand_path);
    out.append("::Rng + ?Sized>(&self, rng: &mut __R) -> ");
    out.append(enum_name);
    out.append(" {\n        let mut items = vec![");
    let ghost head = out@;
    let ghost rows = res.table();
    let mut i: usize = 0;
    assert(rows.subrange(0, 0) =~= Seq::<(Seq<char>, u128)>::empty());
    assert(out@ =~= head + items_text(enum_name@, res.weight_type, rows.subrange(0, 0)));
    while i < res.variants.len()
        invariant
            rows == res.table(),
            i <= res.variants@.len(),
            out@ == head + items_text(enum_name@, res.weight_type, rows.subrange(0, i as int)),
        decreases res.variants.len() - i,
    {
        push_item(&mut out, enum_name, res.weight_type, &res.variants[i]);
        assert(rows.subrange(0, i + 1).drop_last() =~= rows.subrange(0, i as int));
        assert(rows[i as int] == (res.variants@[i as int].name@, res.variants@[i as int].weight));
        assert(out@ =~= head + items_text(enum_name@, res.weight_type, rows.subrange(0, i + 1)));
        i = i + 1;
    }
    assert(rows.subrange(0, i as int) =~= rows);
    out.append("];\n        let weight_dist = ");
    out.append(rand_path);
    out.append(
        "::distributions::WeightedIndex::new(items.iter().map(|(_, weight)| weight)).unwrap();\n        let index = ",
    );
    out.append(rand_path);
    out.append(
        "::distributions::Distribution::sample(&weight_dist, rng);\n        items.swap_remove(index).0\n    }\n}\n",
    );
    out
}

} // verus!
