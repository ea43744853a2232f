use vstd::prelude::*;
use crate::schema::{Document, Field, TypeDefinition};

verus! {

/// The fields of a sequence of references, read through them.
pub open spec fn read_fields(s: Seq<&Field>) -> Seq<Field> {
    s.map_values(|f: &Field| *f)
}

/// Whether `d` is an object type named `name`.
pub open spec fn is_object_named(d: TypeDefinition, name: Seq<char>) -> bool {
    match d {
        TypeDefinition::Object(o) => o.name@ == name,
        _ => false,
    }
}

/// The fields of every object type named `name` among the first `n`
/// definitions, in document order.
pub open spec fn object_fields(defs: Seq<TypeDefinition>, name: Seq<char>, n: nat) -> Seq<Field>
    decreases n,
{
    if n == 0 || n > defs.len() {
        Seq::empty()
    } else {
        object_fields(defs, name, (n - 1) as nat) + match defs[n - 1] {
            TypeDefinition::Object(o) => if o.name@ == name {
                o.fields@
            } else {
                Seq::empty()
            },
            _ => Seq::empty(),
        }
    }
}

/// Whether some object type of the document is named `name`.
pub open spec fn has_object(defs: Seq<TypeDefinition>, name: Seq<char>) -> bool {
    exists|i: int| 0 <= i < defs.len() && is_object_named(#[trigger] defs[i], name)
}

fn collect_object_fields<'a>(doc: &'a Document, name: &String) -> (r: Vec<&'a Field>)
    ensures
        read_fields(r@) == object_fields(doc.definitions@, name@, doc.definitions@.len()),
{
    let mut r: Vec<&'a Field> = Vec::new();
    let mut i: usize = 0;
    while i < doc.definitions.len()
        invariant
            i <= doc.definitions@.len(),
            read_fields(r@) == object_fields(doc.definitions@, name@, i as nat),
        decreases doc.definitions@.len() - i,
    {
        match &doc.definitions[i] {
            TypeDefinition::Object(o) => {
                if o.name == *name {
                    let mut j: usize = 0;
                    let ghost before = read_fields(r@);
                    while j < o.fields.len()
                        invariant
                            j <= o.fields@.len(),
                            read_fields(r@) == before + o.fields@.take(j as int),
                        decreases o.fields@.len() - j,
                    {
                        let ghost r0 = r@;
                        r.push(&o.fields[j]);
                        proof {
                            assert(read_fields(r@) =~= read_fields(r0).push(o.fields@[j as int]));
                            assert(o.fields@.take(j + 1) =~= o.fields@.take(j as int).push(o.fields@[j as int]));
                            assert(read_fields(r@) =~= before + o.fields@.take(j + 1));
                        }
                        j = j + 1;
                    }
                    assert(o.fields@.take(o.fields@.len() as int) =~= o.fields@);
                }
            },
            _ => {},
        }
        i = i + 1;
    }
    r
}

proof fn lemma_no_object_no_fields(defs: Seq<TypeDefinition>, name: Seq<char>, n: nat)
    requires
        !has_object(defs, name),
    ensures
        object_fields(defs, name, n) == Seq::<Field>::empty(),
    decreases n,
{
    if n > 0 && n <= defs.len() {
        lemma_no_object_no_fields(defs, name, (n - 1) as nat);
        assert(!is_object_named(defs[n - 1], name));
        assert(object_fields(defs, name, n) =~= Seq::<Field>::empty());
    }
}

/// The fields of each object type of a document, by type name.
pub struct FieldsMap<'a> {
    entries: Vec<(&'a String, Vec<&'a Field>)>,
    defs: Ghost<Seq<TypeDefinition>>,
}

impl<'a> FieldsMap<'a> {
    /// The definitions of the document the map was built from.
    pub closed spec fn definitions(&self) -> Seq<TypeDefinition> {
        self.defs@
    }

    /// Each object type name of the document is a key exactly once, and its
    /// entry holds the fields of every object type of that name in document
    /// order.
    pub closed spec fn wf(&self) -> bool {
        &&& forall|j: int|
            0 <= j < self.entries@.len() ==> {
                &&& read_fields((#[trigger] self.entries@[j]).1@) == object_fields(
                    self.defs@,
                    self.entries@[j].0@,
                    self.defs@.len(),
                )
                &&& has_object(self.defs@, self.entries@[j].0@)
            }
        &&& forall|j: int, k: int|
            0 <= j < self.entries@.len() && 0 <= k < self.entries@.len() && j != k
                ==> (#[trigger] self.entries@[j]).0@ != (#[trigger] self.entries@[k]).0@
        &&& forall|name: Seq<char>|
            #[trigger] has_object(self.defs@, name) ==> exists|j: int|
                0 <= j < self.entries@.len() && (#[trigger] self.entries@[j]).0@ == name
    }

    /// The fields of the object types named `name`, or `None` where the
    /// document has no object type of that name.
    pub fn get(&self, name: &String) -> (r: Option<&Vec<&'a Field>>)
        requires
            self.wf(),
        ensures
            match r {
                Some(v) => has_object(self.definitions(), name@) && read_fields(v@)
                    == object_fields(self.definitions(), name@, self.definitions().len()),
                None => !has_object(self.definitions(), name@),
            },
            r is None ==> object_fields(self.definitions(), name@, self.definitions().len())
                == Seq::<Field>::empty(),
    {
        let mut j: usize = 0;
        while j < self.entries.len()
            invariant
                self.wf(),
                j <= self.entries@.len(),
                forall|k: int| 0 <= k < j ==> (#[trigger] self.entries@[k]).0@ != name@,
            decreases self.entries@.len() - j,
        {
            if *self.entries[j].0 == *name {
                return Some(&self.entries[j].1);
            }
            j = j + 1;
        }
        proof {
            if has_object(self.defs@, name@) {
                let k = choose|k: int| 0 <= k < self.entries@.len() && (#[trigger] self.entries@[k]).0@ == name@;
            }
            lemma_no_object_no_fields(self.defs@, name@, self.defs@.len());
        }
        None
    }
}

/// Indexes the fields of every object type of the document by type name.
pub fn build_fields_map<'a>(doc: &'a Document) -> (r: FieldsMap<'a>)
    ensures
        r.wf(),
        r.definitions() == doc.definitions@,
{
    let ghost defs = doc.definitions@;
    let mut entries: Vec<(&'a String, Vec<&'a Field>)> = Vec::new();
    let mut i: usize = 0;
    while i < doc.definitions.len()
        invariant
            defs == doc.definitions@,
            i <= defs.len(),
            forall|j: int|
                0 <= j < entries@.len() ==> {
                    &&& read_fields((#[trigger] entries@[j]).1@) == object_fields(
                        defs,
                        entries@[j].0@,
                        defs.len(),
                    )
                    &&& has_object(defs, entries@[j].0@)
                },
            forall|j: int, k: int|
                0 <= j < entries@.len() && 0 <= k < entries@.len() && j != k
                    ==> (#[trigger] entries@[j]).0@ != (#[trigger] entries@[k]).0@,
            forall|i2: int, name: Seq<char>|
                0 <= i2 < i && #[trigger] is_object_named(defs[i2], name) ==> exists|j: int|
                    0 <= j < entries@.len() && (#[trigger] entries@[j]).0@ == name,
        decreases defs.len() - i,
    {
        match &doc.definitions[i] {
            TypeDefinition::Object(o) => {
                let mut j: usize = 0;
                let mut found = false;
                while j < entries.len()
                    invariant
                        j <= entries@.len(),
                        !found ==> forall|k: int| 0 <= k < j ==> (#[trigger] entries@[k]).0@ != o.name@,
                        found ==> exists|k: int| 0 <= k < entries@.len() && (#[trigger] entries@[k]).0@ == o.name@,
                    decreases entries@.len() - j,
                {
                    if *entries[j].0 == o.name {
                        found = true;
                    }
                    j = j + 1;
                }
                if !found {
                    let fields = collect_object_fields(doc, &o.name);
                    let ghost old_entries = entries@;
                    proof {
                        assert(is_object_named(defs[i as int], o.name@));
                    }
                    entries.push((&o.name, fields));
                    proof {
                        assert(entries@[old_entries.len() as int].0@ == o.name@);
                        assert forall|j: int| 0 <= j < old_entries.len() implies entries@[j] == old_entries[j] by {}
                    }
                }
            },
            _ => {},
        }
        i = i + 1;
    }
    proof {
        assert forall|name: Seq<char>| #[trigger] has_object(defs, name) implies exists|j: int|
            0 <= j < entries@.len() && (#[trigger] entries@[j]).0@ == name by {
            let i2 = choose|i2: int| 0 <= i2 < defs.len() && is_object_named(#[trigger] defs[i2], name);
            assert(is_object_named(defs[i2], name));
        }
    }
    FieldsMap { entries, defs: Ghost(defs) }
}

} // verus!
