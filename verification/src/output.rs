//! What the templates write with: buffers of text, a writer that knows where
//! the output and the templates are, and templates with named holes.

use vstd::prelude::*;
use vstd::string::*;

verus! {

/// The character that stands between a directory and a file name in the
/// paths of a writer.
pub open spec fn path_separator() -> Seq<char> {
    seq!['\\']
}

/// `dir`, the separator and `file`.
pub open spec fn joined_path(dir: Seq<char>, file: Seq<char>) -> Seq<char> {
    dir + path_separator() + file
}

/// The path of `file` in the directory `dir`.
pub fn join_path(dir: &str, file: &str) -> (path: String)
    ensures
        path@ == joined_path(dir@, file@),
{
    proof {
        reveal_strlit("\\");
        assert("\\"@ =~= path_separator());
    }
    let mut path = String::from_str(dir);
    path.append("\\");
    path.append(file);
    path
}

/// A buffer of text that grows at its end.
#[derive(Debug, Default)]
pub struct StringWriter {
    text: String,
}

impl View for StringWriter {
    type V = Seq<char>;

    closed spec fn view(&self) -> Seq<char> {
        self.text@
    }
}

impl Clone for StringWriter {
    fn clone(&self) -> (copy: StringWriter)
        ensures
            copy@ == self@,
    {
        StringWriter { text: self.text.clone() }
    }
}

impl StringWriter {
    /// An empty buffer.
    pub fn new() -> (w: StringWriter)
        ensures
            w@ == Seq::<char>::empty(),
    {
        StringWriter { text: String::new() }
    }

    /// Adds `txt` at the end.
    pub fn add(&mut self, txt: String)
        ensures
            final(self)@ == old(self)@ + txt@,
    {
        self.text.append(txt.as_str());
    }

    /// Adds the text of `txt` at the end.
    pub fn add_string_writer(&mut self, txt: StringWriter)
        ensures
            final(self)@ == old(self)@ + txt@,
    {
        self.text.append(txt.text.as_str());
    }

    /// The text written so far.
    pub fn get(&self) -> (text: String)
        ensures
            text@ == self@,
    {
        self.text.clone()
    }
}

/// What `string_template` renders from a pattern and the values bound to
/// names: the text of `Template::new(pattern).render(..)` with `values[i]`
/// bound to `names[i]`.
pub uninterp spec fn rendered(
    pattern: Seq<char>,
    names: Seq<Seq<char>>,
    values: Seq<Seq<char>>,
) -> Seq<char>;

/// The names of a list of names with their values, in order.
pub open spec fn names_of(entries: Seq<(String, String)>) -> Seq<Seq<char>> {
    entries.map_values(|e: (String, String)| e.0@)
}

/// The values of a list of names with their values, in order.
pub open spec fn values_of(entries: Seq<(String, String)>) -> Seq<Seq<char>> {
    entries.map_values(|e: (String, String)| e.1@)
}

/// No text stands twice in `names`.
pub open spec fn distinct(names: Seq<Seq<char>>) -> bool {
    forall|i: int, j: int| 0 <= i < j < names.len() ==> names[i] != names[j]
}

/// Renders `pattern` by `string_template::Template::new` and `render`: each
/// `{{name}}` of the pattern whose name is among the names of `entries` is
/// replaced by the value that stands with that name. The contract names the
/// result; it says nothing else of it.
#[verifier::external_body]
fn render(pattern: &str, entries: &Vec<(String, String)>) -> (text: String)
    requires
        distinct(names_of(entries@)),
    ensures
        text@ == rendered(pattern@, names_of(entries@), values_of(entries@)),
{
    let vars: std::collections::HashMap<&str, &str> = entries.iter().map(
        |e| (e.0.as_str(), e.1.as_str()),
    ).collect();
    string_template::Template::new(pattern).render(&vars)
}

/// A copy of `entries` with `entry` at the place `at`: in place of what stood
/// there, or behind the last one.
fn replaced(entries: &Vec<(String, String)>, at: usize, entry: (String, String)) -> (all: Vec<
    (String, String),
>)
    requires
        at <= entries.len(),
    ensures
        all@ == if at < entries.len() {
            entries@.update(at as int, entry)
        } else {
            entries@.push(entry)
        },
{
    let mut all: Vec<(String, String)> = Vec::new();
    let mut i: usize = 0;
    while i < entries.len()
        invariant
            i <= entries.len(),
            at <= entries.len(),
            all@.len() == i,
            forall|j: int| 0 <= j < i && j != at ==> all@[j] == entries@[j],
            forall|j: int| 0 <= j < i && j == at ==> all@[j] == entry,
        decreases entries.len() - i,
    {
        if i == at {
            all.push((entry.0.clone(), entry.1.clone()));
        } else {
            all.push((entries[i].0.clone(), entries[i].1.clone()));
        }
        i += 1;
    }
    if at == entries.len() {
        all.push(entry);
    }
    assert(all@ =~= if at < entries.len() {
        entries@.update(at as int, entry)
    } else {
        entries@.push(entry)
    });
    all
}

/// A template: a pattern with holes written `{{name}}`, and the values that
/// have been put for names. No name is held twice.
#[derive(Debug, Default)]
pub struct OutputTemplate {
    pattern: String,
    entries: Vec<(String, String)>,
}

impl Clone for OutputTemplate {
    fn clone(&self) -> (copy: OutputTemplate)
        ensures
            copy.pattern() == self.pattern(),
            copy.names() == self.names(),
            copy.values() == self.values(),
    {
        proof {
            use_type_invariant(self);
        }
        let mut entries: Vec<(String, String)> = Vec::new();
        let mut i: usize = 0;
        while i < self.entries.len()
            invariant
                i <= self.entries.len(),
                entries@.len() == i,
                forall|j: int| 0 <= j < i ==> entries@[j] == self.entries@[j],
            decreases self.entries.len() - i,
        {
            entries.push((self.entries[i].0.clone(), self.entries[i].1.clone()));
            i += 1;
        }
        assert(entries@ =~= self.entries@);
        OutputTemplate { pattern: self.pattern.clone(), entries }
    }
}

impl OutputTemplate {
    #[verifier::type_invariant]
    spec fn no_name_twice(self) -> bool {
        distinct(names_of(self.entries@))
    }

    /// The pattern.
    pub closed spec fn pattern(&self) -> Seq<char> {
        self.pattern@
    }

    /// The names that have a value, in the order in which they first got
    /// one.
    pub closed spec fn names(&self) -> Seq<Seq<char>> {
        names_of(self.entries@)
    }

    /// The values, each at the place of its name.
    pub closed spec fn values(&self) -> Seq<Seq<char>> {
        values_of(self.entries@)
    }

    /// The value put for `name`, if any.
    pub open spec fn value_of(&self, name: Seq<char>) -> Option<Seq<char>> {
        if self.names().contains(name) {
            Some(self.values()[self.names().index_of(name)])
        } else {
            None
        }
    }

    /// A template with the pattern `pattern` and no values.
    pub fn new(pattern: String) -> (t: OutputTemplate)
        ensures
            t.pattern() == pattern@,
            t.names() == Seq::<Seq<char>>::empty(),
            t.values() == Seq::<Seq<char>>::empty(),
    {
        let t = OutputTemplate { pattern, entries: Vec::new() };
        assert(t.names() =~= Seq::empty());
        assert(t.values() =~= Seq::empty());
        t
    }

    /// The place of `name` among the names, if it has a value.
    fn find(&self, name: &str) -> (at: Option<usize>)
        ensures
            match at {
                Some(i) => i < self.names().len() && self.names()[i as int] == name@,
                None => !self.names().contains(name@),
            },
    {
        let wanted = String::from_str(name);
        let mut i: usize = 0;
        while i < self.entries.len()
            invariant
                i <= self.entries.len(),
                wanted@ == name@,
                forall|j: int| 0 <= j < i ==> self.names()[j] != name@,
            decreases self.entries.len() - i,
        {
            if self.entries[i].0 == wanted {
                return Some(i);
            }
            i += 1;
        }
        None
    }

    /// Puts `value` for `name`. A value put earlier for the same name is
    /// replaced; every other name keeps its value.
    pub fn put(&mut self, name: &str, value: &str)
        ensures
            final(self).pattern() == old(self).pattern(),
            final(self).value_of(name@) == Some(value@),
            forall|other: Seq<char>|
                other != name@ ==> final(self).value_of(other) == old(self).value_of(other),
            old(self).names().contains(name@) ==> final(self).names() == old(self).names(),
            !old(self).names().contains(name@) ==> final(self).names() == old(self).names().push(
                name@,
            ),
    {
        proof {
            use_type_invariant(&*self);
        }
        let ghost before = *self;
        let entry = (String::from_str(name), String::from_str(value));
        match self.find(name) {
            Some(i) => {
                proof {
                    assert(names_of(before.entries@.update(i as int, entry)) =~= before.names());
                }
                self.entries = replaced(&self.entries, i, entry);
                proof {
                    assert(self.names() == before.names());
                    assert(self.values() =~= before.values().update(i as int, value@));
                    assert forall|other: Seq<char>| other != name@ implies self.value_of(other)
                        == before.value_of(other) by {
                        if before.names().contains(other) {
                            let k = before.names().index_of(other);
                            assert(k != i);
                        }
                    }
                    lemma_place_of(self.names(), i as int);
                }
            },
            None => {
                proof {
                    let after = names_of(before.entries@.push(entry));
                    assert(after =~= before.names().push(name@));
                    assert forall|i: int, j: int| 0 <= i < j < after.len() implies after[i]
                        != after[j] by {
                        if j == after.len() - 1 {
                            assert(before.names().contains(before.names()[i]));
                        }
                    }
                }
                self.entries = replaced(&self.entries, self.entries.len(), entry);
                proof {
                    let n = before.names().len() as int;
                    assert(self.names() =~= before.names().push(name@));
                    assert(self.values() =~= before.values().push(value@));
                    assert(self.names()[n] == name@);
                    lemma_place_of(self.names(), n);
                    assert forall|other: Seq<char>| other != name@ implies self.value_of(other)
                        == before.value_of(other) by {
                        if before.names().contains(other) {
                            let k = before.names().index_of(other);
                            assert(self.names()[k] == other);
                            lemma_place_of(self.names(), k);
                        } else if self.names().contains(other) {
                            let k = self.names().index_of(other);
                            assert(k < n);
                            assert(before.names()[k] == other);
                        }
                    }
                }
            },
        }
    }

    /// Puts the text of `value` for `name`, as `put` does.
    pub fn put_string_writer(&mut self, name: &str, value: StringWriter)
        ensures
            final(self).pattern() == old(self).pattern(),
            final(self).value_of(name@) == Some(value@),
            forall|other: Seq<char>|
                other != name@ ==> final(self).value_of(other) == old(self).value_of(other),
            old(self).names().contains(name@) ==> final(self).names() == old(self).names(),
            !old(self).names().contains(name@) ==> final(self).names() == old(self).names().push(
                name@,
            ),
    {
        let text = value.get();
        self.put(name, text.as_str());
    }

    /// The pattern with the values in the holes of their names.
    pub fn finish(self) -> (text: String)
        ensures
            text@ == rendered(self.pattern(), self.names(), self.values()),
    {
        proof {
            use_type_invariant(&self);
        }
        render(self.pattern.as_str(), &self.entries)
    }
}

/// In a list without repetition, a text is found at its own place.
pub proof fn lemma_place_of(names: Seq<Seq<char>>, i: int)
    requires
        distinct(names),
        0 <= i < names.len(),
    ensures
        names.contains(names[i]),
        names.index_of(names[i]) == i,
{
    let k = names.index_of(names[i]);
    assert(names.contains(names[i]));
    if k < i {
        assert(names[k] != names[i]);
    } else if i < k {
        assert(names[i] != names[k]);
    }
}

/// A writer: the directory that output goes to, the directory that holds the
/// templates, and the text written so far.
#[derive(Debug)]
pub struct OutputWriter {
    output_path: String,
    config_path: String,
    text: String,
}

impl Clone for OutputWriter {
    fn clone(&self) -> (copy: OutputWriter)
        ensures
            copy.output_path() == self.output_path(),
            copy.config_path() == self.config_path(),
            copy.text() == self.text(),
    {
        OutputWriter {
            output_path: self.output_path.clone(),
            config_path: self.config_path.clone(),
            text: self.text.clone(),
        }
    }
}

impl OutputWriter {
    /// The directory that output goes to.
    pub closed spec fn output_path(&self) -> Seq<char> {
        self.output_path@
    }

    /// The directory that holds the templates.
    pub closed spec fn config_path(&self) -> Seq<char> {
        self.config_path@
    }

    /// The text written so far.
    pub closed spec fn text(&self) -> Seq<char> {
        self.text@
    }

    /// A writer for the two directories, with no text yet.
    pub fn new(output_path: String, config_path: String) -> (w: OutputWriter)
        ensures
            w.output_path() == output_path@,
            w.config_path() == config_path@,
            w.text() == Seq::<char>::empty(),
    {
        OutputWriter { output_path, config_path, text: String::new() }
    }

    /// Adds `txt` at the end of the text.
    pub fn add(&mut self, txt: String)
        ensures
            final(self).text() == old(self).text() + txt@,
            final(self).output_path() == old(self).output_path(),
            final(self).config_path() == old(self).config_path(),
    {
        self.text.append(txt.as_str());
    }

    /// The text written so far.
    pub fn get(&self) -> (text: String)
        ensures
            text@ == self.text(),
    {
        self.text.clone()
    }

    /// The path of the template `temp` in the directory of the templates.
    pub fn template_path(&self, temp: &str) -> (path: String)
        ensures
            path@ == joined_path(self.config_path(), temp@),
    {
        join_path(self.config_path.as_str(), temp)
    }

    /// Adds what the template renders at the end of the text.
    pub fn embed(&mut self, temp: OutputTemplate)
        ensures
            final(self).text() == old(self).text() + rendered(
                temp.pattern(),
                temp.names(),
                temp.values(),
            ),
            final(self).output_path() == old(self).output_path(),
            final(self).config_path() == old(self).config_path(),
    {
        self.add(temp.finish());
    }

    /// What is to be written, and where: the path of `path` in the output
    /// directory, and the text written so far.
    pub fn write_to(&mut self, path: String) -> (file: (String, String))
        ensures
            file.0@ == joined_path(old(self).output_path(), path@),
            file.1@ == old(self).text(),
            final(self).text() == old(self).text(),
            final(self).output_path() == old(self).output_path(),
            final(self).config_path() == old(self).config_path(),
    {
        (join_path(self.output_path.as_str(), path.as_str()), self.get())
    }

    /// Empties the text.
    pub fn clear(&mut self)
        ensures
            final(self).text() == Seq::<char>::empty(),
            final(self).output_path() == old(self).output_path(),
            final(self).config_path() == old(self).config_path(),
    {
        self.text = String::new();
    }

    /// A fresh, empty buffer.
    pub fn snippet(&mut self) -> (w: StringWriter)
        ensures
            w@ == Seq::<char>::empty(),
            final(self).text() == old(self).text(),
            final(self).output_path() == old(self).output_path(),
            final(self).config_path() == old(self).config_path(),
    {
        StringWriter::new()
    }
}

} // verus!
