//! Where the object file of a source goes.
//!
//! Objects live under the target directory in a tree that mirrors the
//! sources. A source below the project directory keeps its relative path,
//! behind the mark `0_`. A source outside it is located from the nearest
//! ancestor of the project directory that holds it, and the mark counts how
//! many levels up that ancestor is. A source that no ancestor holds gets the
//! mark `x_` before its whole path.

use vstd::prelude::*;
use vstd::string::*;
use crate::bytes::{append, bytes_of, copy_bytes, decimal, decimal_string, is_digit, lemma_decimal_digits, lemma_decimal_injective, to_bytes};
use crate::path::{extension, is_absolute, is_normal, join, lemma_last_index_of, lemma_parent_shorter, parent, set_extension, spec_extension, spec_join, spec_parent, spec_strip_prefix, strip_prefix, with_extension, extension_dot, spec_file_name, SEPARATOR, DOT};

verus! {

/// The byte that ends a mark (`_`).
pub const UNDERSCORE: u8 = 95;

/// The byte that marks a source which no ancestor holds (`x`).
pub const OUTSIDE: u8 = 120;

/// The name of an object found `parents` levels above the project directory,
/// `rest` being the source's path below that level.
pub open spec fn counted_name(parents: nat, rest: Seq<u8>) -> Seq<u8> {
    decimal(parents) + seq![UNDERSCORE] + rest
}

/// The name of an object whose source no ancestor of the project directory
/// holds.
pub open spec fn outside_name(file: Seq<u8>) -> Seq<u8> {
    seq![OUTSIDE, UNDERSCORE] + file
}

/// The name of the object of `file` as seen from `base`, which lies `parents`
/// levels above the project directory.
pub open spec fn obj_name_from(base: Seq<u8>, file: Seq<u8>, parents: nat) -> Seq<u8>
    decreases base.len(),
    via obj_name_from_decreases
{
    match spec_strip_prefix(file, base) {
        Some(rest) => counted_name(parents, rest),
        None => match spec_parent(base) {
            Some(up) => obj_name_from(up, file, parents + 1),
            None => outside_name(file),
        },
    }
}

#[via_fn]
proof fn obj_name_from_decreases(base: Seq<u8>, file: Seq<u8>, parents: nat) {
    lemma_parent_shorter(base);
}

/// The path of the object of `file` under `target`, for a project in `base`.
pub open spec fn obj_path(target: Seq<u8>, base: Seq<u8>, file: Seq<u8>) -> Seq<u8> {
    spec_join(target, obj_name_from(base, file, 0))
}

/// Maps a source to the path of its object under `target`: `target`, then
/// the number of levels between `base` and the nearest of its ancestors that
/// holds `file`, an underscore, and the path of `file` below that ancestor.
pub fn get_obj_path(target: &[u8], base: &[u8], file: &[u8]) -> (r: Vec<u8>)
    ensures
        r@ == obj_path(target@, base@, file@),
{
    let mut cur = copy_bytes(base);
    let mut parents: usize = 0;
    loop
        invariant
            parents + cur.len() <= base.len(),
            obj_name_from(cur@, file@, parents as nat) == obj_name_from(base@, file@, 0),
        decreases cur.len(),
    {
        match strip_prefix(file, cur.as_slice()) {
            Some(rest) => {
                let mut name = decimal_string(parents);
                name.push(UNDERSCORE);
                append(&mut name, rest.as_slice());
                return join(target, name.as_slice());
            },
            None => {},
        }
        match parent(cur.as_slice()) {
            Some(up) => {
                proof {
                    lemma_parent_shorter(cur@);
                }
                cur = up;
                parents += 1;
            },
            None => {
                let mut name: Vec<u8> = Vec::new();
                name.push(OUTSIDE);
                name.push(UNDERSCORE);
                append(&mut name, file);
                assert(name@ =~= outside_name(file@));
                return join(target, name.as_slice());
            },
        }
    }
}

/// The path of the object that a unit compiles to, before it is moved under
/// the target directory: the unit with the extension `o`. A path without an
/// extension names no unit.
pub open spec fn spec_unit_to_obj(path: Seq<u8>) -> Option<Seq<u8>> {
    if spec_extension(path) is None {
        None
    } else {
        Some(with_extension(path, bytes_of("o")))
    }
}

/// Converts the path of a `.c` or `.cpp` file to the path of its `.o` file.
pub fn unit_to_obj(path: &[u8]) -> (r: Option<Vec<u8>>)
    ensures
        match r {
            Some(obj) => spec_unit_to_obj(path@) == Some(obj@),
            None => spec_unit_to_obj(path@) is None,
        },
{
    if extension(path).is_none() {
        return None;
    }
    let mut obj = copy_bytes(path);
    let o = to_bytes("o");
    set_extension(&mut obj, o.as_slice());
    Some(obj)
}

/// Two counted names are equal only where their counts and their rests are.
pub proof fn lemma_counted_name_injective(k1: nat, r1: Seq<u8>, k2: nat, r2: Seq<u8>)
    requires
        counted_name(k1, r1) == counted_name(k2, r2),
    ensures
        k1 == k2,
        r1 == r2,
{
    let d1 = decimal(k1);
    let d2 = decimal(k2);
    let n1 = counted_name(k1, r1);
    let n2 = counted_name(k2, r2);
    lemma_decimal_digits(k1);
    lemma_decimal_digits(k2);
    if d1.len() < d2.len() {
        assert(n1[d1.len() as int] == UNDERSCORE);
        assert(n2[d1.len() as int] == d2[d1.len() as int]);
        assert(is_digit(d2[d1.len() as int]));
    }
    if d2.len() < d1.len() {
        assert(n2[d2.len() as int] == UNDERSCORE);
        assert(n1[d2.len() as int] == d1[d2.len() as int]);
        assert(is_digit(d1[d2.len() as int]));
    }
    assert(d1 =~= d2) by {
        assert forall|i: int| 0 <= i < d1.len() implies d1[i] == d2[i] by {
            assert(n1[i] == d1[i]);
            assert(n2[i] == d2[i]);
        }
    }
    lemma_decimal_injective(k1, k2);
    assert(r1 =~= r2) by {
        assert(r1.len() == r2.len()) by {
            assert(n1.len() == d1.len() + 1 + r1.len());
            assert(n2.len() == d2.len() + 1 + r2.len());
        }
        assert forall|i: int| 0 <= i < r1.len() implies r1[i] == r2[i] by {
            assert(n1[d1.len() + 1 + i] == r1[i]);
            assert(n2[d2.len() + 1 + i] == r2[i]);
        }
    }
}

/// A normal path is known from a base that holds it and what is left of it
/// below that base.
pub proof fn lemma_strip_prefix_injective(f1: Seq<u8>, f2: Seq<u8>, base: Seq<u8>)
    requires
        is_normal(f1),
        is_normal(f2),
        spec_strip_prefix(f1, base) is Some,
        spec_strip_prefix(f1, base) == spec_strip_prefix(f2, base),
    ensures
        f1 == f2,
{
    let rest = spec_strip_prefix(f1, base)->0;
    if base.len() == 0 {
    } else if base.last() == SEPARATOR {
        assert(f1 =~= base + rest);
        assert(f2 =~= base + rest);
    } else if rest.len() == 0 {
        assert(f1 =~= base);
        assert(f2 =~= base);
    } else {
        assert(f1 =~= base + seq![SEPARATOR] + rest);
        assert(f2 =~= base + seq![SEPARATOR] + rest);
    }
}

/// The name of an object is the mark of an outside source, or counts at least
/// as many levels as the search began with.
pub proof fn lemma_obj_name_shape(base: Seq<u8>, file: Seq<u8>, parents: nat)
    ensures
        obj_name_from(base, file, parents) == outside_name(file) || exists|k: nat, rest: Seq<u8>|
            k >= parents && obj_name_from(base, file, parents) == #[trigger] counted_name(k, rest),
    decreases base.len(),
{
    match spec_strip_prefix(file, base) {
        Some(rest) => {
            assert(obj_name_from(base, file, parents) == counted_name(parents, rest));
        },
        None => match spec_parent(base) {
            Some(up) => {
                lemma_parent_shorter(base);
                lemma_obj_name_shape(up, file, parents + 1);
            },
            None => {},
        },
    }
}

/// A counted name is never the name of an outside source.
pub proof fn lemma_counted_is_not_outside(k: nat, rest: Seq<u8>, file: Seq<u8>)
    ensures
        counted_name(k, rest) != outside_name(file),
{
    lemma_decimal_digits(k);
    assert(counted_name(k, rest)[0] == decimal(k)[0]);
    assert(is_digit(decimal(k)[0]));
    assert(outside_name(file)[0] == OUTSIDE);
}

/// Seen from one base at one level, two normal sources have one object name
/// only where they are one source.
pub proof fn lemma_obj_name_injective(base: Seq<u8>, f1: Seq<u8>, f2: Seq<u8>, parents: nat)
    requires
        is_normal(f1),
        is_normal(f2),
        obj_name_from(base, f1, parents) == obj_name_from(base, f2, parents),
    ensures
        f1 == f2,
    decreases base.len(),
{
    let s1 = spec_strip_prefix(f1, base);
    let s2 = spec_strip_prefix(f2, base);
    let n1 = obj_name_from(base, f1, parents);
    let n2 = obj_name_from(base, f2, parents);
    if s1 is Some && s2 is Some {
        lemma_counted_name_injective(parents, s1->0, parents, s2->0);
        lemma_strip_prefix_injective(f1, f2, base);
    } else if s1 is Some || s2 is Some {
        // One source lies below this base; the other is found higher up or
        // nowhere, and so its name differs.
        let (found, other) = if s1 is Some { (f1, f2) } else { (f2, f1) };
        let rest = spec_strip_prefix(found, base)->0;
        assert(obj_name_from(base, found, parents) == counted_name(parents, rest));
        match spec_parent(base) {
            Some(up) => {
                lemma_parent_shorter(base);
                lemma_obj_name_shape(up, other, parents + 1);
                if obj_name_from(up, other, parents + 1) == outside_name(other) {
                    lemma_counted_is_not_outside(parents, rest, other);
                } else {
                    let (k, r) = choose|k: nat, r: Seq<u8>|
                        k >= parents + 1 && obj_name_from(up, other, parents + 1) == #[trigger] counted_name(k, r);
                    lemma_counted_name_injective(parents, rest, k, r);
                }
            },
            None => {
                lemma_counted_is_not_outside(parents, rest, other);
            },
        }
    } else {
        match spec_parent(base) {
            Some(up) => {
                lemma_parent_shorter(base);
                lemma_obj_name_injective(up, f1, f2, parents + 1);
            },
            None => {
                assert(f1 =~= outside_name(f1).subrange(2, outside_name(f1).len() as int));
                assert(f2 =~= outside_name(f2).subrange(2, outside_name(f2).len() as int));
            },
        }
    }
}

/// The name of an object is never empty and never absolute.
pub proof fn lemma_obj_name_relative(base: Seq<u8>, file: Seq<u8>, parents: nat)
    ensures
        obj_name_from(base, file, parents).len() > 0,
        !is_absolute(obj_name_from(base, file, parents)),
{
    lemma_obj_name_shape(base, file, parents);
    let name = obj_name_from(base, file, parents);
    if name == outside_name(file) {
        assert(name[0] == OUTSIDE);
    } else {
        let (k, r) = choose|k: nat, r: Seq<u8>|
            k >= parents && obj_name_from(base, file, parents) == #[trigger] counted_name(k, r);
        lemma_decimal_digits(k);
        assert(name[0] == decimal(k)[0]);
        assert(is_digit(decimal(k)[0]));
    }
}

/// Under one target directory and for one project directory, two normal
/// sources have one object path only where they are one source: distinct
/// sources never share an object.
pub proof fn lemma_obj_path_injective(target: Seq<u8>, base: Seq<u8>, f1: Seq<u8>, f2: Seq<u8>)
    requires
        is_normal(f1),
        is_normal(f2),
        obj_path(target, base, f1) == obj_path(target, base, f2),
    ensures
        f1 == f2,
{
    let n1 = obj_name_from(base, f1, 0);
    let n2 = obj_name_from(base, f2, 0);
    lemma_obj_name_relative(base, f1, 0);
    lemma_obj_name_relative(base, f2, 0);
    let p1 = obj_path(target, base, f1);
    let p2 = obj_path(target, base, f2);
    let lead = if target.len() == 0 || target.last() == SEPARATOR {
        target
    } else {
        target + seq![SEPARATOR]
    };
    assert(p1 =~= lead + n1);
    assert(p2 =~= lead + n2);
    assert(n1 =~= p1.subrange(lead.len() as int, p1.len() as int));
    assert(n2 =~= p2.subrange(lead.len() as int, p2.len() as int));
    lemma_obj_name_injective(base, f1, f2, 0);
}

/// Giving a normal path with an extension the extension `o` leaves it
/// normal.
pub proof fn lemma_unit_to_obj_normal(unit: Seq<u8>)
    requires
        is_normal(unit),
        spec_unit_to_obj(unit) is Some,
    ensures
        is_normal(spec_unit_to_obj(unit)->0),
{
    reveal_strlit("o");
    broadcast use is_ascii_spec_bytes;
    assert(is_ascii("o"));
    let o = bytes_of("o");
    assert(o.len() == 1 && o[0] != SEPARATOR);
    let d = extension_dot(unit)->0;
    lemma_last_index_of(unit, SEPARATOR);
    let name = spec_file_name(unit)->0;
    lemma_last_index_of(name, DOT);
    let stem = unit.subrange(0, d);
    let obj = stem + seq![DOT] + o;
    assert(spec_unit_to_obj(unit)->0 == obj);
    assert(obj.last() == o[0]);
    assert forall|i: int| 0 <= i < obj.len() - 1 implies !(obj[i] == SEPARATOR && #[trigger] obj[i + 1] == SEPARATOR) by {
        if i + 1 < stem.len() {
            assert(obj[i] == unit[i]);
            assert(obj[i + 1] == unit[i + 1]);
        }
    }
}

/// Two normal units share an object path only where they turn into the same
/// object name, that is, where they differ in nothing but their extension.
pub proof fn lemma_unit_objects_distinct(target: Seq<u8>, base: Seq<u8>, u1: Seq<u8>, u2: Seq<u8>)
    requires
        is_normal(u1),
        is_normal(u2),
        spec_unit_to_obj(u1) is Some,
        spec_unit_to_obj(u2) is Some,
        obj_path(target, base, spec_unit_to_obj(u1)->0) == obj_path(target, base, spec_unit_to_obj(u2)->0),
    ensures
        spec_unit_to_obj(u1) == spec_unit_to_obj(u2),
{
    lemma_unit_to_obj_normal(u1);
    lemma_unit_to_obj_normal(u2);
    lemma_obj_path_injective(target, base, spec_unit_to_obj(u1)->0, spec_unit_to_obj(u2)->0);
}

} // verus!
