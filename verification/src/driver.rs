//! What the driver computes around a parsed class: the texts and names that
//! it hands to the scripts, and the paths of the files it reads and writes.

use vstd::prelude::*;
use vstd::string::*;
use crate::model::{value_text, view_names, view_properties, Class, Property, PropertyView};

verus! {

/// The texts `items` in a row, with `between` from one to the next.
pub open spec fn joined(items: Seq<Seq<char>>, between: Seq<char>) -> Seq<char>
    decreases items.len(),
{
    if items.len() == 0 {
        Seq::empty()
    } else if items.len() == 1 {
        items[0]
    } else {
        joined(items.drop_last(), between) + between + items.last()
    }
}

/// Joins texts with a comma and a blank between them.
pub fn join_string_array(v: Vec<String>) -> (text: String)
    ensures
        text@ == joined(view_names(v@), ", "@),
{
    let ghost items = view_names(v@);
    let mut text = String::new();
    assert(items.take(0) =~= Seq::empty());
    let mut i: usize = 0;
    while i < v.len()
        invariant
            i <= v.len(),
            items == view_names(v@),
            text@ == joined(items.take(i as int), ", "@),
        decreases v.len() - i,
    {
        proof {
            assert(items.take(i + 1).drop_last() =~= items.take(i as int));
        }
        if i > 0 {
            text.append(", ");
        }
        let ghost before = text@;
        text.append(v[i].as_str());
        assert(i == 0 ==> before =~= Seq::<char>::empty());
        assert(i == 0 ==> text@ =~= items[0]);
        i += 1;
    }
    assert(items.take(v.len() as int) =~= items);
    text
}

/// A property as it is shown: its name, and behind an equals sign its value
/// if it has one.
pub open spec fn property_text(p: PropertyView) -> Seq<char> {
    match p.value {
        Some(v) => p.name + seq!['='] + value_text(v),
        None => p.name,
    }
}

/// The properties of `props` as they are shown, in order.
pub open spec fn property_texts(props: Seq<PropertyView>) -> Seq<Seq<char>> {
    props.map_values(|p: PropertyView| property_text(p))
}

/// Joins properties, each shown as `name` or `name=value`, with a comma and
/// a blank between them.
pub fn join_property_array(v: Vec<Property>) -> (text: String)
    ensures
        text@ == joined(property_texts(view_properties(v@)), ", "@),
{
    let ghost wanted = property_texts(view_properties(v@));
    let mut shown: Vec<String> = Vec::new();
    let mut i: usize = 0;
    while i < v.len()
        invariant
            i <= v.len(),
            shown@.len() == i,
            forall|j: int| 0 <= j < i ==> shown@[j]@ == property_text(v@[j]@),
        decreases v.len() - i,
    {
        let mut one = v[i].name.clone();
        match &v[i].value {
            Some(value) => {
                proof {
                    reveal_strlit("=");
                    assert("="@ =~= seq!['=']);
                }
                one.append("=");
                let written = value.to_text();
                one.append(written.as_str());
            },
            None => {},
        }
        shown.push(one);
        i += 1;
    }
    assert(view_names(shown@) =~= wanted);
    join_string_array(shown)
}

/// Tells whether the list holds any text.
pub fn any_string_in_array(v: Vec<String>) -> (yes: bool)
    ensures
        yes == (v@.len() > 0),
{
    !v.is_empty()
}

/// The path of the entry `s` in the directory `p`, with `separator` between
/// the two.
pub fn append_to_path(p: &str, separator: &str, s: &str) -> (path: String)
    ensures
        path@ == p@ + separator@ + s@,
{
    let mut path = String::from_str(p);
    path.append(separator);
    path.append(s);
    path
}

/// The directory of the configuration: `.moho` in the configuration
/// directory `dir` of the user, and the current directory if there is none.
pub fn config_path(dir: Option<String>, separator: &str) -> (path: String)
    ensures
        path@ == match dir {
            Some(d) => d@ + separator@ + ".moho"@,
            None => "."@,
        },
{
    match dir {
        Some(d) => append_to_path(d.as_str(), separator, ".moho"),
        None => String::from_str("."),
    }
}

/// The name of the script that generates the code of a class: that of its
/// primary base, and `base.rhai` for a class without bases.
pub open spec fn script_of(bases: Seq<Seq<char>>) -> Seq<char> {
    if bases.len() > 0 {
        bases[0] + ".rhai"@
    } else {
        "base.rhai"@
    }
}

/// The text of a source file for a new class `name` with the base `base`.
pub open spec fn skeleton_of(name: Seq<char>, base: Seq<char>) -> Seq<char> {
    "class "@ + name + " : "@ + base + "\n{\n\n}\n"@
}

/// The text of a source file for a new class `name` with the base `base`.
pub fn class_skeleton(name: &str, base: &str) -> (text: String)
    ensures
        text@ == skeleton_of(name@, base@),
{
    let mut text = String::from_str("class ");
    text.append(name);
    text.append(" : ");
    text.append(base);
    text.append("\n{\n\n}\n");
    text
}

impl Class {
    /// The primary base: the first of the bases, if there is any.
    pub fn primary_base(&self) -> (base: Option<String>)
        ensures
            match base {
                Some(b) => self@.inherit.len() > 0 && b@ == self@.inherit[0],
                None => self@.inherit.len() == 0,
            },
    {
        if self.inherit.len() > 0 {
            Some(self.inherit[0].clone())
        } else {
            None
        }
    }

    /// The bases behind the primary one, in order.
    pub fn other_bases(&self) -> (bases: Vec<String>)
        ensures
            view_names(bases@) == if self@.inherit.len() > 0 {
                self@.inherit.subrange(1, self@.inherit.len() as int)
            } else {
                self@.inherit
            },
    {
        let mut bases: Vec<String> = Vec::new();
        if self.inherit.len() == 0 {
            assert(view_names(bases@) =~= self@.inherit);
            return bases;
        }
        let mut i: usize = 1;
        while i < self.inherit.len()
            invariant
                1 <= i <= self.inherit.len(),
                bases@.len() == i - 1,
                forall|j: int| 0 <= j < bases@.len() ==> bases@[j]@ == self.inherit@[j + 1]@,
            decreases self.inherit.len() - i,
        {
            bases.push(self.inherit[i].clone());
            i += 1;
        }
        assert(view_names(bases@) =~= self@.inherit.subrange(1, self@.inherit.len() as int));
        bases
    }

    /// The name of the script that generates the code of the class.
    pub fn script_name(&self) -> (name: String)
        ensures
            name@ == script_of(self@.inherit),
    {
        match self.primary_base() {
            Some(b) => {
                let mut name = b;
                name.append(".rhai");
                name
            },
            None => String::from_str("base.rhai"),
        }
    }
}

} // verus!
