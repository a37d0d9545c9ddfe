use vstd::prelude::*;

verus! {

/// A configuration document as it is read: scalars, sequences, mappings
/// keyed by text and tagged values.
///
/// A real number is held by the bits of its double, a date by its text.
#[derive(Debug)]
pub enum Document {
    Null,
    Boolean(bool),
    Integer(i64),
    Real(u64),
    Text(String),
    Datetime(String),
    Sequence(Vec<Document>),
    Mapping(Vec<(String, Document)>),
    Tagged(String, Box<Document>),
}

/// What a document says: a mapping is a map from keys to what its values
/// say, whatever the order in which the entries stand.
pub ghost enum Tree {
    Null,
    Boolean(bool),
    Integer(int),
    Real(u64),
    Text(Seq<char>),
    Datetime(Seq<char>),
    Sequence(Seq<Tree>),
    Mapping(Map<Seq<char>, Tree>),
    Tagged(Seq<char>, Box<Tree>),
}

/// The map that a list of entries stands for. Where a key stood twice the
/// later entry would count; a well-formed document has no such key.
pub open spec fn entries_map(entries: Seq<(String, Document)>) -> Map<Seq<char>, Tree>
    decreases entries, 0nat,
{
    if entries.len() == 0 {
        Map::empty()
    } else {
        entries_map(entries.drop_last()).insert(entries.last().0@, tree_of(entries.last().1))
    }
}

/// What the items of a sequence say, in their order.
pub open spec fn items_trees(items: Seq<Document>) -> Seq<Tree>
    decreases items, 0nat,
{
    if items.len() == 0 {
        Seq::empty()
    } else {
        items_trees(items.drop_last()).push(tree_of(items.last()))
    }
}

/// What a document says.
pub open spec fn tree_of(doc: Document) -> Tree
    decreases doc, 1nat,
{
    match doc {
        Document::Null => Tree::Null,
        Document::Boolean(b) => Tree::Boolean(b),
        Document::Integer(i) => Tree::Integer(i as int),
        Document::Real(bits) => Tree::Real(bits),
        Document::Text(text) => Tree::Text(text@),
        Document::Datetime(text) => Tree::Datetime(text@),
        Document::Sequence(items) => Tree::Sequence(items_trees(items@)),
        Document::Mapping(entries) => Tree::Mapping(entries_map(entries@)),
        Document::Tagged(tag, inner) => Tree::Tagged(tag@, Box::new(tree_of(*inner))),
    }
}

/// No key stands twice among the entries.
pub open spec fn distinct_keys(entries: Seq<(String, Document)>) -> bool {
    forall|i: int, j: int|
        0 <= i < j < entries.len() ==> (#[trigger] entries[i]).0@ != (#[trigger] entries[j]).0@
}

/// Every value among the entries is well formed.
pub open spec fn values_wf(entries: Seq<(String, Document)>) -> bool {
    forall|i: int| 0 <= i < entries.len() ==> (#[trigger] entries[i]).1.wf()
}

/// The name of the key under which a document names the one it builds on.
pub open spec fn template_key() -> Seq<char> {
    "template"@
}

impl View for Document {
    type V = Tree;

    open spec fn view(&self) -> Tree {
        tree_of(*self)
    }
}

impl Document {
    /// A document is well formed when no mapping in it holds a key twice.
    pub open spec fn wf(self) -> bool
        decreases self,
    {
        match self {
            Document::Sequence(items) => forall|i: int|
                0 <= i < items.len() ==> (#[trigger] items[i]).wf(),
            Document::Mapping(entries) => distinct_keys(entries@) && forall|i: int|
                0 <= i < entries.len() ==> (#[trigger] entries@[i]).1.wf(),
            Document::Tagged(_, inner) => inner.wf(),
            _ => true,
        }
    }

    /// An empty mapping.
    pub fn new_mapping() -> (doc: Document)
        ensures
            doc.wf(),
            doc@ == Tree::Mapping(Map::<Seq<char>, Tree>::empty()),
    {
        let entries: Vec<(String, Document)> = Vec::new();
        assert(entries_map(entries@) =~= Map::<Seq<char>, Tree>::empty());
        Document::Mapping(entries)
    }

    /// A text scalar.
    pub fn text(value: &str) -> (doc: Document)
        ensures
            doc.wf(),
            doc@ == Tree::Text(value@),
    {
        Document::Text(value.to_owned())
    }

    /// Whether no mapping in the document holds a key twice.
    #[verifier::loop_isolation(false)]
    pub fn is_well_formed(&self) -> (sound: bool)
        ensures
            sound == self.wf(),
        decreases self,
    {
        match self {
            Document::Sequence(items) => {
                let mut index: usize = 0;
                while index < items.len()
                    invariant
                        index <= items.len(),
                        forall|i: int| 0 <= i < index ==> (#[trigger] items[i]).wf(),
                    decreases items.len() - index,
                {
                    if !items[index].is_well_formed() {
                        return false;
                    }
                    index += 1;
                }
                true
            },
            Document::Mapping(entries) => {
                let mut index: usize = 0;
                while index < entries.len()
                    invariant
                        index <= entries.len(),
                        forall|i: int| 0 <= i < index ==> (#[trigger] entries[i]).1.wf(),
                        forall|i: int, j: int|
                            0 <= i < j < index ==> (#[trigger] entries[i]).0@ != (
                            #[trigger] entries[j]).0@,
                    decreases entries.len() - index,
                {
                    if !entries[index].1.is_well_formed() {
                        return false;
                    }
                    let mut earlier: usize = 0;
                    while earlier < index
                        invariant
                            earlier <= index < entries.len(),
                            forall|i: int|
                                0 <= i < earlier ==> (#[trigger] entries[i]).0@
                                    != entries[index as int].0@,
                        decreases index - earlier,
                    {
                        if entries[earlier].0 == entries[index].0 {
                            return false;
                        }
                        earlier += 1;
                    }
                    index += 1;
                }
                true
            },
            Document::Tagged(_, inner) => inner.is_well_formed(),
            _ => true,
        }
    }

    /// A copy of the document.
    #[verifier::loop_isolation(false)]
    pub fn duplicate(&self) -> (copy: Document)
        ensures
            copy@ == self@,
            self.wf() ==> copy.wf(),
        decreases self,
    {
        match self {
            Document::Null => Document::Null,
            Document::Boolean(b) => Document::Boolean(*b),
            Document::Integer(i) => Document::Integer(*i),
            Document::Real(bits) => Document::Real(*bits),
            Document::Text(text) => Document::Text(text.clone()),
            Document::Datetime(text) => Document::Datetime(text.clone()),
            Document::Sequence(items) => {
                let mut copies: Vec<Document> = Vec::new();
                let mut index: usize = 0;
                while index < items.len()
                    invariant
                        index <= items.len(),
                        copies.len() == index,
                        forall|i: int|
                            0 <= i < index ==> tree_of(#[trigger] copies[i]) == tree_of(items[i]),
                        forall|i: int|
                            0 <= i < index && items[i].wf() ==> (#[trigger] copies[i]).wf(),
                    decreases items.len() - index,
                {
                    let copy = items[index].duplicate();
                    copies.push(copy);
                    index += 1;
                }
                proof {
                    lemma_items_alike(copies@, items@);
                }
                Document::Sequence(copies)
            },
            Document::Mapping(entries) => {
                let mut copies: Vec<(String, Document)> = Vec::new();
                let mut index: usize = 0;
                while index < entries.len()
                    invariant
                        index <= entries.len(),
                        copies.len() == index,
                        forall|i: int|
                            0 <= i < index ==> (#[trigger] entries[i]).0@ == copies[i].0@
                                && tree_of(entries[i].1) == tree_of(copies[i].1),
                        forall|i: int|
                            0 <= i < index && entries[i].1.wf() ==> (#[trigger] copies[i]).1.wf(),
                    decreases entries.len() - index,
                {
                    let key = entries[index].0.clone();
                    let copy = entries[index].1.duplicate();
                    copies.push((key, copy));
                    index += 1;
                }
                proof {
                    lemma_entries_alike(entries@, copies@);
                }
                Document::Mapping(copies)
            },
            Document::Tagged(tag, inner) => Document::Tagged(
                tag.clone(),
                Box::new(inner.duplicate()),
            ),
        }
    }

    /// Whether two documents say the same: equal scalars, sequences equal
    /// item by item, mappings with the same keys and values that say the
    /// same, in whatever order the entries stand.
    #[verifier::loop_isolation(false)]
    pub fn matches(&self, other: &Document) -> (same: bool)
        requires
            self.wf(),
            other.wf(),
        ensures
            same == (self@ == other@),
        decreases self,
    {
        match (self, other) {
            (Document::Null, Document::Null) => true,
            (Document::Boolean(a), Document::Boolean(b)) => *a == *b,
            (Document::Integer(a), Document::Integer(b)) => *a == *b,
            (Document::Real(a), Document::Real(b)) => *a == *b,
            (Document::Text(a), Document::Text(b)) => *a == *b,
            (Document::Datetime(a), Document::Datetime(b)) => *a == *b,
            (Document::Sequence(a), Document::Sequence(b)) => {
                proof {
                    lemma_items_trees(a@);
                    lemma_items_trees(b@);
                }
                if a.len() != b.len() {
                    return false;
                }
                let mut index: usize = 0;
                while index < a.len()
                    invariant
                        index <= a.len(),
                        forall|i: int| 0 <= i < index ==> tree_of(#[trigger] a[i]) == tree_of(b[i]),
                    decreases a.len() - index,
                {
                    if !a[index].matches(&b[index]) {
                        assert(items_trees(a@)[index as int] != items_trees(b@)[index as int]);
                        return false;
                    }
                    index += 1;
                }
                proof {
                    lemma_items_alike(a@, b@);
                }
                true
            },
            (Document::Mapping(a), Document::Mapping(b)) => {
                let mut index: usize = 0;
                while index < a.len()
                    invariant
                        index <= a.len(),
                        forall|i: int|
                            0 <= i < index ==> entries_map(b@).dom().contains(
                                (#[trigger] a[i]).0@,
                            ) && entries_map(b@)[a[i].0@] == tree_of(a[i].1),
                    decreases a.len() - index,
                {
                    proof {
                        lemma_entries_value(a@, index as int);
                        lemma_entries_dom(b@, a[index as int].0@);
                    }
                    match find_key(b, a[index].0.as_str()) {
                        Some(place) => {
                            proof {
                                lemma_entries_value(b@, place as int);
                            }
                            if !a[index].1.matches(&b[place].1) {
                                return false;
                            }
                        },
                        None => {
                            return false;
                        },
                    }
                    index += 1;
                }
                let mut place: usize = 0;
                while place < b.len()
                    invariant
                        place <= b.len(),
                        forall|i: int|
                            0 <= i < place ==> entries_map(a@).dom().contains(
                                (#[trigger] b[i]).0@,
                            ),
                    decreases b.len() - place,
                {
                    proof {
                        lemma_entries_value(b@, place as int);
                        lemma_entries_dom(a@, b[place as int].0@);
                    }
                    if find_key(a, b[place].0.as_str()).is_none() {
                        return false;
                    }
                    place += 1;
                }
                proof {
                    let left = entries_map(a@);
                    let right = entries_map(b@);
                    assert forall|key: Seq<char>| #[trigger]
                        left.dom().contains(key) implies right.dom().contains(key) && left[key]
                        == right[key] by {
                        lemma_entries_dom(a@, key);
                        let i = choose|i: int| 0 <= i < a.len() && (#[trigger] a@[i]).0@ == key;
                        lemma_entries_value(a@, i);
                    }
                    assert forall|key: Seq<char>| #[trigger]
                        right.dom().contains(key) implies left.dom().contains(key) by {
                        lemma_entries_dom(b@, key);
                        let i = choose|i: int| 0 <= i < b.len() && (#[trigger] b@[i]).0@ == key;
                        assert(left.dom().contains(b@[i].0@));
                    }
                    assert(left =~= right);
                }
                true
            },
            (Document::Tagged(tag, inner), Document::Tagged(other_tag, other_inner)) => {
                *tag == *other_tag && inner.matches(other_inner)
            },
            _ => false,
        }
    }

    /// The value under `key`, where the document is a mapping that has it.
    pub fn get(&self, key: &str) -> (value: Option<&Document>)
        requires
            self.wf(),
        ensures
            match value {
                Some(found) => self@ is Mapping && self@->Mapping_0.dom().contains(key@)
                    && self@->Mapping_0[key@] == found@ && found.wf(),
                None => !(self@ is Mapping && self@->Mapping_0.dom().contains(key@)),
            },
    {
        match self {
            Document::Mapping(entries) => {
                match find_key(entries, key) {
                    Some(index) => {
                        proof {
                            lemma_entries_value(entries@, index as int);
                        }
                        Some(&entries[index].1)
                    },
                    None => {
                        proof {
                            lemma_entries_dom(entries@, key@);
                        }
                        None
                    },
                }
            },
            _ => None,
        }
    }

    /// Sets the value under `key` in a mapping, in place of the one that
    /// stood there. Anything but a mapping is left as it is.
    pub fn insert(&mut self, key: String, value: Document)
        requires
            old(self).wf(),
            value.wf(),
        ensures
            final(self).wf(),
            old(self)@ is Mapping ==> final(self)@ == Tree::Mapping(
                old(self)@->Mapping_0.insert(key@, value@),
            ),
            !(old(self)@ is Mapping) ==> final(self)@ == old(self)@,
    {
        match self {
            Document::Mapping(entries) => {
                put_entry(entries, key, value);
            },
            _ => {},
        }
    }

    /// Takes the entry under `key` out of a mapping and hands its value
    /// back. Anything but a mapping is left as it is.
    pub fn remove(&mut self, key: &str) -> (value: Option<Document>)
        requires
            old(self).wf(),
        ensures
            final(self).wf(),
            match value {
                Some(found) => old(self)@ is Mapping && old(self)@->Mapping_0.dom().contains(key@)
                    && old(self)@->Mapping_0[key@] == found@ && found.wf() && final(self)@
                    == Tree::Mapping(old(self)@->Mapping_0.remove(key@)),
                None => !(old(self)@ is Mapping && old(self)@->Mapping_0.dom().contains(key@))
                    && final(self)@ == old(self)@,
            },
    {
        match self {
            Document::Mapping(entries) => take_entry(entries, key),
            _ => None,
        }
    }
}

impl PartialEq for Document {
    fn eq(&self, other: &Document) -> (same: bool) {
        self.is_well_formed() && other.is_well_formed() && self.matches(other)
    }
}

impl vstd::std_specs::cmp::PartialEqSpecImpl for Document {
    open spec fn obeys_eq_spec() -> bool {
        true
    }

    open spec fn eq_spec(&self, other: &Document) -> bool {
        self.wf() && other.wf() && self@ == other@
    }
}

/// The place of `key` among the entries.
pub fn find_key(entries: &Vec<(String, Document)>, key: &str) -> (found: Option<usize>)
    ensures
        match found {
            Some(index) => index < entries.len() && entries[index as int].0@ == key@,
            None => forall|i: int| 0 <= i < entries.len() ==> (#[trigger] entries[i]).0@ != key@,
        },
{
    let wanted = key.to_owned();
    let mut index: usize = 0;
    while index < entries.len()
        invariant
            index <= entries.len(),
            wanted@ == key@,
            forall|i: int| 0 <= i < index ==> (#[trigger] entries[i]).0@ != key@,
        decreases entries.len() - index,
    {
        if entries[index].0 == wanted {
            return Some(index);
        }
        index += 1;
    }
    None
}

/// Sets the value under `key`: in place where the key stands, else at the
/// end.
pub fn put_entry(entries: &mut Vec<(String, Document)>, key: String, value: Document)
    requires
        distinct_keys(old(entries)@),
    ensures
        distinct_keys(final(entries)@),
        entries_map(final(entries)@) == entries_map(old(entries)@).insert(key@, tree_of(value)),
        values_wf(old(entries)@) && value.wf() ==> values_wf(final(entries)@),
{
    match find_key(entries, key.as_str()) {
        Some(index) => {
            proof {
                lemma_entries_update(entries@, index as int, (key, value));
            }
            let ghost before = entries@;
            entries.set(index, (key, value));
            proof {
                if values_wf(before) && value.wf() {
                    assert forall|i: int| 0 <= i < entries@.len() implies (
                    #[trigger] entries@[i]).1.wf() by {
                        if i != index {
                            assert(entries@[i] == before[i]);
                        }
                    }
                }
            }
        },
        None => {
            proof {
                assert(entries@.push((key, value)).drop_last() =~= entries@);
                assert(distinct_keys(entries@.push((key, value))));
            }
            let ghost before = entries@;
            entries.push((key, value));
            proof {
                if values_wf(before) && value.wf() {
                    assert forall|i: int| 0 <= i < entries@.len() implies (
                    #[trigger] entries@[i]).1.wf() by {
                        if i < before.len() {
                            assert(entries@[i] == before[i]);
                        }
                    }
                }
            }
        },
    }
}

/// Takes the entry under `key` out and hands its value back.
pub fn take_entry(entries: &mut Vec<(String, Document)>, key: &str) -> (value: Option<Document>)
    requires
        distinct_keys(old(entries)@),
    ensures
        distinct_keys(final(entries)@),
        match value {
            Some(found) => entries_map(old(entries)@).dom().contains(key@) && entries_map(
                old(entries)@,
            )[key@] == tree_of(found) && entries_map(final(entries)@) == entries_map(
                old(entries)@,
            ).remove(key@) && (values_wf(old(entries)@) ==> found.wf()),
            None => !entries_map(old(entries)@).dom().contains(key@) && final(entries)@ == old(
                entries,
            )@,
        },
        values_wf(old(entries)@) ==> values_wf(final(entries)@),
{
    match find_key(entries, key) {
        Some(index) => {
            proof {
                lemma_entries_value(entries@, index as int);
                lemma_entries_remove(entries@, index as int);
            }
            let ghost before = entries@;
            let entry = entries.remove(index);
            proof {
                if values_wf(before) {
                    assert(before[index as int].1.wf());
                    assert forall|i: int| 0 <= i < entries@.len() implies (
                    #[trigger] entries@[i]).1.wf() by {
                        let at = if i < index { i } else { i + 1 };
                        assert(entries@[i] == before[at]);
                    }
                }
            }
            Some(entry.1)
        },
        None => {
            proof {
                lemma_entries_dom(entries@, key@);
            }
            None
        },
    }
}

/// Lists of entries with the same keys and values that say the same stand
/// for the same map.
pub proof fn lemma_entries_alike(a: Seq<(String, Document)>, b: Seq<(String, Document)>)
    requires
        a.len() == b.len(),
        forall|i: int|
            0 <= i < a.len() ==> (#[trigger] a[i]).0@ == b[i].0@ && tree_of(a[i].1) == tree_of(
                b[i].1,
            ),
    ensures
        entries_map(a) == entries_map(b),
        distinct_keys(a) ==> distinct_keys(b),
    decreases a.len(),
{
    if a.len() > 0 {
        assert(a.drop_last().len() == b.drop_last().len());
        assert forall|i: int| 0 <= i < a.drop_last().len() implies (#[trigger] a.drop_last()[i]).0@
            == b.drop_last()[i].0@ && tree_of(a.drop_last()[i].1) == tree_of(
            b.drop_last()[i].1,
        ) by {
            assert(a.drop_last()[i] == a[i]);
            assert(b.drop_last()[i] == b[i]);
        }
        lemma_entries_alike(a.drop_last(), b.drop_last());
        assert(a[a.len() - 1].0@ == b[a.len() - 1].0@);
    }
    if distinct_keys(a) {
        assert forall|i: int, j: int| 0 <= i < j < b.len() implies (#[trigger] b[i]).0@ != (
        #[trigger] b[j]).0@ by {
            assert(a[i].0@ == b[i].0@ && a[j].0@ == b[j].0@);
        }
    }
}

/// Sequences that say the same item by item say the same.
pub proof fn lemma_items_alike(a: Seq<Document>, b: Seq<Document>)
    requires
        a.len() == b.len(),
        forall|i: int| 0 <= i < a.len() ==> tree_of(#[trigger] a[i]) == tree_of(b[i]),
    ensures
        items_trees(a) == items_trees(b),
{
    lemma_items_trees(a);
    lemma_items_trees(b);
    assert(items_trees(a) =~= items_trees(b));
}

/// A key is in the map of a list of entries exactly when an entry has it.
pub proof fn lemma_entries_dom(entries: Seq<(String, Document)>, key: Seq<char>)
    ensures
        entries_map(entries).dom().contains(key) <==> exists|i: int|
            0 <= i < entries.len() && (#[trigger] entries[i]).0@ == key,
        entries_map(entries).dom().finite(),
    decreases entries.len(),
{
    if entries.len() > 0 {
        let before = entries.drop_last();
        lemma_entries_dom(before, key);
        if entries_map(entries).dom().contains(key) {
            if entries.last().0@ == key {
                assert(entries[entries.len() - 1].0@ == key);
            } else {
                let i = choose|i: int| 0 <= i < before.len() && (#[trigger] before[i]).0@ == key;
                assert(entries[i].0@ == key);
            }
        }
        if exists|i: int| 0 <= i < entries.len() && (#[trigger] entries[i]).0@ == key {
            let i = choose|i: int| 0 <= i < entries.len() && (#[trigger] entries[i]).0@ == key;
            if i < entries.len() - 1 {
                assert(before[i].0@ == key);
            }
        }
    }
}

/// Under distinct keys an entry's key maps to what the entry's value says.
pub proof fn lemma_entries_value(entries: Seq<(String, Document)>, index: int)
    requires
        distinct_keys(entries),
        0 <= index < entries.len(),
    ensures
        entries_map(entries).dom().contains(entries[index].0@),
        entries_map(entries)[entries[index].0@] == tree_of(entries[index].1),
    decreases entries.len(),
{
    let before = entries.drop_last();
    if index < entries.len() - 1 {
        assert(distinct_keys(before)) by {
            assert forall|i: int, j: int| 0 <= i < j < before.len() implies (
            #[trigger] before[i]).0@ != (#[trigger] before[j]).0@ by {
                assert(before[i] == entries[i] && before[j] == entries[j]);
            }
        }
        lemma_entries_value(before, index);
        assert(before[index] == entries[index]);
        assert(entries[index].0@ != entries[entries.len() - 1].0@);
    }
}

/// Replacing the value of an entry replaces the value of its key.
pub proof fn lemma_entries_update(
    entries: Seq<(String, Document)>,
    index: int,
    entry: (String, Document),
)
    requires
        distinct_keys(entries),
        0 <= index < entries.len(),
        entry.0@ == entries[index].0@,
    ensures
        distinct_keys(entries.update(index, entry)),
        entries_map(entries.update(index, entry)) == entries_map(entries).insert(
            entry.0@,
            tree_of(entry.1),
        ),
    decreases entries.len(),
{
    let after = entries.update(index, entry);
    assert(distinct_keys(after)) by {
        assert forall|i: int, j: int| 0 <= i < j < after.len() implies (#[trigger] after[i]).0@ != (
        #[trigger] after[j]).0@ by {
            assert(after[i].0@ == entries[i].0@ && after[j].0@ == entries[j].0@);
        }
    }
    let before = entries.drop_last();
    if index == entries.len() - 1 {
        assert(after.drop_last() =~= before);
        assert(entries_map(after) =~= entries_map(entries).insert(entry.0@, tree_of(entry.1)));
    } else {
        assert(distinct_keys(before)) by {
            assert forall|i: int, j: int| 0 <= i < j < before.len() implies (
            #[trigger] before[i]).0@ != (#[trigger] before[j]).0@ by {
                assert(before[i] == entries[i] && before[j] == entries[j]);
            }
        }
        assert(before[index] == entries[index]);
        lemma_entries_update(before, index, entry);
        assert(after.drop_last() =~= before.update(index, entry));
        assert(after.last() == entries.last());
        assert(entries[index].0@ != entries[entries.len() - 1].0@);
        assert(entries_map(after) =~= entries_map(entries).insert(entry.0@, tree_of(entry.1)));
    }
}

/// Taking an entry out takes its key out of the map.
pub proof fn lemma_entries_remove(entries: Seq<(String, Document)>, index: int)
    requires
        distinct_keys(entries),
        0 <= index < entries.len(),
    ensures
        distinct_keys(entries.remove(index)),
        entries_map(entries.remove(index)) == entries_map(entries).remove(entries[index].0@),
    decreases entries.len(),
{
    let after = entries.remove(index);
    assert(distinct_keys(after)) by {
        assert forall|i: int, j: int| 0 <= i < j < after.len() implies (#[trigger] after[i]).0@ != (
        #[trigger] after[j]).0@ by {
            let si = if i < index { i } else { i + 1 };
            let sj = if j < index { j } else { j + 1 };
            assert(after[i] == entries[si] && after[j] == entries[sj]);
        }
    }
    let before = entries.drop_last();
    assert(distinct_keys(before)) by {
        assert forall|i: int, j: int| 0 <= i < j < before.len() implies (#[trigger] before[i]).0@
            != (#[trigger] before[j]).0@ by {
            assert(before[i] == entries[i] && before[j] == entries[j]);
        }
    }
    if index == entries.len() - 1 {
        assert(after =~= before);
        lemma_entries_dom(before, entries[index].0@);
        if entries_map(before).dom().contains(entries[index].0@) {
            let i = choose|i: int| 0 <= i < before.len() && (#[trigger] before[i]).0@ == entries[index].0@;
            assert(before[i] == entries[i]);
            assert(false);
        }
        assert(entries_map(after) =~= entries_map(entries).remove(entries[index].0@));
    } else {
        assert(before[index] == entries[index]);
        lemma_entries_remove(before, index);
        assert(after.drop_last() =~= before.remove(index));
        assert(after.last() == entries.last());
        assert(entries[index].0@ != entries[entries.len() - 1].0@);
        assert(entries_map(after) =~= entries_map(entries).remove(entries[index].0@));
    }
}

/// The trees of a sequence stand item by item.
pub proof fn lemma_items_trees(items: Seq<Document>)
    ensures
        items_trees(items).len() == items.len(),
        forall|i: int| 0 <= i < items.len() ==> #[trigger] items_trees(items)[i] == tree_of(items[i]),
    decreases items.len(),
{
    if items.len() > 0 {
        lemma_items_trees(items.drop_last());
    }
}

} // verus!
