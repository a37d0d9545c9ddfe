use vstd::prelude::*;

use crate::config::document::{
    items_trees, lemma_items_trees, template_key, tree_of, Document, Tree,
};
use crate::config::error::ConfigError;
use crate::config::syntax::{read_toml, toml_parsed};
use crate::config::template_resolver::error::TemplateError;
use crate::config::template_resolver::TemplateResolver;
use crate::util::{deep_merge, holds_no_mapping, later_value_wins, merged};

pub mod blocks;
pub mod document;
pub mod error;
pub mod syntax;
pub mod template_resolver;

verus! {

pub const LATEST_VERSION: &'static str = "1";

/// How many templates one document may build on, one after the other.
pub const RECURSION_CAP: usize = 100;

/// The template that a document names: the text under its `template` key.
pub open spec fn template_of(doc: Tree) -> Option<Seq<char>> {
    match doc {
        Tree::Mapping(entries) => if entries.dom().contains(template_key())
            && entries[template_key()] is Text {
            Some(entries[template_key()]->Text_0)
        } else {
            None
        },
        _ => None,
    }
}

/// The document without its `template` key.
pub open spec fn stripped(doc: Tree) -> Tree {
    match doc {
        Tree::Mapping(entries) => Tree::Mapping(entries.remove(template_key())),
        _ => doc,
    }
}

/// A chain of documents folded into one: starting from an empty mapping, the
/// last of the chain is merged in first and the head of the chain last, so
/// that what stands earlier in the chain wins.
pub open spec fn collapsed(chain: Seq<Tree>) -> Tree
    decreases chain.len(),
{
    if chain.len() == 0 {
        Tree::Mapping(Map::empty())
    } else {
        merged(collapsed(chain.drop_first()), chain[0])
    }
}

/// `next` is a document that the resolver gives for the template that `doc`
/// names.
pub open spec fn follows<R: TemplateResolver>(resolver: R, doc: Tree, next: Tree) -> bool {
    template_of(doc) is Some && exists|found: Document|
        #[trigger] resolver.answers(template_of(doc)->Some_0, Ok(found)) && found.wf() && found@
            == next
}

/// `chain` begins with `first`, holds no more than `RECURSION_CAP`
/// templates after it, and each document in it but the last names a
/// template for which the resolver gives the next.
pub open spec fn template_chain<R: TemplateResolver>(
    resolver: R,
    first: Tree,
    chain: Seq<Tree>,
) -> bool {
    &&& 1 <= chain.len() <= RECURSION_CAP + 1
    &&& chain[0] == first
    &&& forall|i: int| 0 <= i < chain.len() - 1 ==> follows(resolver, #[trigger] chain[i], chain[i + 1])
}

/// `chain` is a finished chain of templates under `first`: the last document
/// names no template.
pub open spec fn resolution_chain<R: TemplateResolver>(
    resolver: R,
    first: Tree,
    chain: Seq<Tree>,
) -> bool {
    template_chain(resolver, first, chain) && template_of(chain.last()) is None
}

/// `chain` is a chain of templates under `first` that breaks off with
/// `error`: its last document names a template still, and either the cap is
/// reached, and the error holds that reference, or the error is the
/// resolver's answer to it.
pub open spec fn broken_chain<R: TemplateResolver>(
    resolver: R,
    first: Tree,
    chain: Seq<Tree>,
    error: TemplateError,
) -> bool {
    &&& template_chain(resolver, first, chain)
    &&& template_of(chain.last()) is Some
    &&& if chain.len() == RECURSION_CAP + 1 {
        error is RecursionLimit && error->RecursionLimit_0@ == template_of(chain.last())->Some_0
    } else {
        resolver.answers(template_of(chain.last())->Some_0, Err(error))
    }
}

/// `flat` is what a finished chain of templates under `first` folds into.
pub open spec fn flattens_to<R: TemplateResolver>(resolver: R, first: Tree, flat: Tree) -> bool {
    exists|chain: Seq<Tree>|
        resolution_chain(resolver, first, chain) && flat == collapsed(
            #[trigger] stripped_chain(chain),
        )
}

/// Some chain of templates under `first` breaks off with `error`.
pub open spec fn breaks_with<R: TemplateResolver>(
    resolver: R,
    first: Tree,
    error: TemplateError,
) -> bool {
    exists|chain: Seq<Tree>| #[trigger] broken_chain(resolver, first, chain, error)
}

/// What flattening `first` gives: the fold of a finished chain, or the error
/// that a chain breaks off with.
pub open spec fn resolved<R: TemplateResolver>(
    resolver: R,
    first: Tree,
    flat: Result<Document, TemplateError>,
) -> bool {
    match flat {
        Ok(doc) => doc.wf() && flattens_to(resolver, first, doc@),
        Err(error) => breaks_with(resolver, first, error),
    }
}

/// Each document of the chain without its `template` key.
pub open spec fn stripped_chain(chain: Seq<Tree>) -> Seq<Tree> {
    Seq::new(chain.len(), |i: int| stripped(chain[i]))
}

/// A document wins over the templates it builds on: a key of the head of a
/// chain whose value holds no mapping keeps that value when the chain is
/// folded.
pub proof fn child_keys_win(chain: Seq<Tree>, key: Seq<char>)
    requires
        chain.len() >= 1,
        chain[0] is Mapping,
        chain[0]->Mapping_0.dom().contains(key),
        holds_no_mapping(chain[0]->Mapping_0[key]),
    ensures
        collapsed(chain) is Mapping,
        collapsed(chain)->Mapping_0.dom().contains(key),
        collapsed(chain)->Mapping_0[key] == chain[0]->Mapping_0[key],
{
    let rest = collapsed(chain.drop_first());
    let value = chain[0]->Mapping_0[key];
    if rest is Mapping && rest->Mapping_0.dom().contains(key) {
        later_value_wins(rest->Mapping_0[key], value);
    }
}

/// Of the documents of a chain that hold a key, the one nearest to the head
/// wins: where the documents up to `place` are mappings, none before
/// `place` holds the key, and the value at `place` holds no mapping, the
/// folded chain has that value, whatever stands further down the chain.
pub proof fn nearest_key_wins(chain: Seq<Tree>, key: Seq<char>, place: int)
    requires
        0 <= place < chain.len(),
        forall|i: int| 0 <= i <= place ==> (#[trigger] chain[i]) is Mapping,
        forall|i: int| 0 <= i < place ==> !(#[trigger] chain[i])->Mapping_0.dom().contains(key),
        chain[place]->Mapping_0.dom().contains(key),
        holds_no_mapping(chain[place]->Mapping_0[key]),
    ensures
        collapsed(chain) is Mapping,
        collapsed(chain)->Mapping_0.dom().contains(key),
        collapsed(chain)->Mapping_0[key] == chain[place]->Mapping_0[key],
    decreases place,
{
    if place == 0 {
        child_keys_win(chain, key);
    } else {
        let rest = chain.drop_first();
        assert forall|i: int| 0 <= i <= place - 1 implies (#[trigger] rest[i]) is Mapping by {
            assert(rest[i] == chain[i + 1]);
        }
        assert forall|i: int| 0 <= i < place - 1 implies !(#[trigger] rest[i])->Mapping_0.dom().contains(
            key,
        ) by {
            assert(rest[i] == chain[i + 1]);
        }
        assert(rest[place - 1] == chain[place]);
        nearest_key_wins(rest, key, place - 1);
        assert(chain[0] is Mapping);
        assert(!chain[0]->Mapping_0.dom().contains(key));
    }
}

/// A flattened document keeps what the document itself says: a key of the
/// document, other than `template`, whose value holds no mapping has that
/// value in the flattened document, whatever the templates hold under it.
pub proof fn flattened_child_wins<R: TemplateResolver>(
    resolver: R,
    first: Tree,
    flat: Document,
    key: Seq<char>,
)
    requires
        resolved(resolver, first, Ok(flat)),
        first is Mapping,
        key != template_key(),
        first->Mapping_0.dom().contains(key),
        holds_no_mapping(first->Mapping_0[key]),
    ensures
        flat@ is Mapping,
        flat@->Mapping_0.dom().contains(key),
        flat@->Mapping_0[key] == first->Mapping_0[key],
{
    let chain = choose|chain: Seq<Tree>|
        resolution_chain(resolver, first, chain) && flat@ == collapsed(
            #[trigger] stripped_chain(chain),
        );
    assert(stripped_chain(chain)[0] == stripped(first));
    child_keys_win(stripped_chain(chain), key);
}

/// What the templates bring stays where the document says nothing of it: a
/// key that the head of a chain lacks has the value that the rest of the
/// chain gives it.
pub proof fn template_keys_stay(chain: Seq<Tree>, key: Seq<char>)
    requires
        chain.len() >= 1,
        chain[0] is Mapping,
        !chain[0]->Mapping_0.dom().contains(key),
        collapsed(chain.drop_first()) is Mapping,
        collapsed(chain.drop_first())->Mapping_0.dom().contains(key),
    ensures
        collapsed(chain) is Mapping,
        collapsed(chain)->Mapping_0.dom().contains(key),
        collapsed(chain)->Mapping_0[key] == collapsed(chain.drop_first())->Mapping_0[key],
{
}

/// A chain of templates that is flattened has come to an end: no more than
/// `RECURSION_CAP` templates follow the document, and the last names none.
pub proof fn flattened_chains_end<R: TemplateResolver>(resolver: R, first: Tree, chain: Seq<Tree>)
    requires
        resolution_chain(resolver, first, chain),
    ensures
        chain.len() <= RECURSION_CAP + 1,
        template_of(chain.last()) is None,
        template_of(first) is None ==> chain.len() == 1,
{
    if chain.len() > 1 {
        assert(follows(resolver, chain[0], chain[1]));
    }
}

/// Every document of a chain under a template that names itself names that
/// template too.
proof fn lemma_self_reference<R: TemplateResolver>(
    resolver: R,
    first: Tree,
    chain: Seq<Tree>,
    name: Seq<char>,
    place: int,
)
    requires
        template_chain(resolver, first, chain),
        template_of(first) == Some(name),
        forall|found: Document| #[trigger]
            resolver.answers(name, Ok(found)) ==> template_of(found@) == Some(name),
        0 <= place < chain.len(),
    ensures
        template_of(chain[place]) == Some(name),
    decreases place,
{
    if place > 0 {
        lemma_self_reference(resolver, first, chain, name, place - 1);
        assert(follows(resolver, chain[place - 1], chain[place]));
    }
}

/// A template that names itself is never flattened. Where the resolver
/// answers the reference `name` with documents that name `name` again, and
/// never with an error, flattening a document that names `name` ends with
/// the error of the cap, which holds that reference.
pub proof fn self_reference_is_refused<R: TemplateResolver>(
    resolver: R,
    first: Tree,
    name: Seq<char>,
    flat: Result<Document, TemplateError>,
)
    requires
        template_of(first) == Some(name),
        forall|found: Result<Document, TemplateError>| #[trigger]
            resolver.answers(name, found) ==> found is Ok && template_of(found->Ok_0@) == Some(
                name,
            ),
        resolved(resolver, first, flat),
    ensures
        flat is Err,
        flat->Err_0 is RecursionLimit,
        flat->Err_0->RecursionLimit_0@ == name,
{
    assert forall|found: Document| #[trigger]
        resolver.answers(name, Ok(found)) implies template_of(found@) == Some(name) by {
        let answer = Ok::<Document, TemplateError>(found);
        assert(resolver.answers(name, answer));
    }
    match flat {
        Ok(doc) => {
            let chain = choose|chain: Seq<Tree>|
                resolution_chain(resolver, first, chain) && doc@ == collapsed(
                    #[trigger] stripped_chain(chain),
                );
            lemma_self_reference(resolver, first, chain, name, chain.len() - 1);
        },
        Err(error) => {
            let chain = choose|chain: Seq<Tree>| #[trigger]
                broken_chain(resolver, first, chain, error);
            lemma_self_reference(resolver, first, chain, name, chain.len() - 1);
            if chain.len() != RECURSION_CAP + 1 {
                let answer = Err::<Document, TemplateError>(error);
                assert(resolver.answers(name, answer));
            }
        },
    }
}

/// Where the resolver gives one document for a reference, a document has
/// one chain of templates: two finished chains under it are the same.
pub proof fn resolution_is_determined<R: TemplateResolver>(
    resolver: R,
    first: Tree,
    one: Seq<Tree>,
    other: Seq<Tree>,
)
    requires
        forall|reference: Seq<char>, a: Document, b: Document|
            #[trigger] resolver.answers(reference, Ok(a)) && #[trigger] resolver.answers(
                reference,
                Ok(b),
            ) ==> a@ == b@,
        resolution_chain(resolver, first, one),
        resolution_chain(resolver, first, other),
    ensures
        one == other,
{
    lemma_same_chain(resolver, first, one, other, one.len() - 1);
    if other.len() > one.len() {
        assert(follows(resolver, other[one.len() - 1], other[one.len() as int]));
    }
    lemma_same_chain(resolver, first, other, one, other.len() - 1);
    if one.len() > other.len() {
        assert(follows(resolver, one[other.len() - 1], one[other.len() as int]));
    }
    assert(one.len() == other.len());
    assert forall|i: int| 0 <= i < one.len() implies one[i] == other[i] by {
        lemma_same_chain(resolver, first, one, other, i);
    }
    assert(one =~= other);
}

/// Two chains under one document agree as far as both reach.
proof fn lemma_same_chain<R: TemplateResolver>(
    resolver: R,
    first: Tree,
    one: Seq<Tree>,
    other: Seq<Tree>,
    place: int,
)
    requires
        forall|reference: Seq<char>, a: Document, b: Document|
            #[trigger] resolver.answers(reference, Ok(a)) && #[trigger] resolver.answers(
                reference,
                Ok(b),
            ) ==> a@ == b@,
        template_chain(resolver, first, one),
        template_chain(resolver, first, other),
        0 <= place < one.len(),
    ensures
        place < other.len() ==> one[place] == other[place],
    decreases place,
{
    if place > 0 {
        lemma_same_chain(resolver, first, one, other, place - 1);
        if place < other.len() {
            assert(follows(resolver, one[place - 1], one[place]));
            assert(follows(resolver, other[place - 1], other[place]));
        }
    }
}

/// Takes the template reference out of a document and hands it back. The
/// `template` key leaves the document whatever it held; only a text counts
/// as a reference.
pub fn extract_template_string(value: &mut Document) -> (reference: Option<String>)
    requires
        old(value).wf(),
    ensures
        final(value).wf(),
        final(value)@ == stripped(old(value)@),
        match reference {
            Some(text) => template_of(old(value)@) == Some(text@),
            None => template_of(old(value)@) is None,
        },
{
    let ghost before = value@;
    match value.remove("template") {
        Some(Document::Text(text)) => Some(text),
        Some(_) => None,
        None => {
            proof {
                if before is Mapping {
                    assert(before->Mapping_0.remove(template_key()) =~= before->Mapping_0);
                }
            }
            None
        },
    }
}

/// Folds a chain of documents into one, the head of the chain winning.
pub fn collapse(stack: Vec<Document>) -> (flat: Document)
    requires
        forall|i: int| 0 <= i < stack.len() ==> (#[trigger] stack[i]).wf(),
    ensures
        flat.wf(),
        flat@ == collapsed(items_trees(stack@)),
{
    let ghost chain = items_trees(stack@);
    let ghost whole = stack@;
    let mut stack = stack;
    let mut out = Document::new_mapping();
    proof {
        lemma_items_trees(whole);
        assert(chain.skip(chain.len() as int) =~= Seq::<Tree>::empty());
    }
    while stack.len() > 0
        invariant
            stack.len() <= whole.len(),
            stack@ == whole.take(stack.len() as int),
            chain.len() == whole.len(),
            forall|i: int| 0 <= i < whole.len() ==> #[trigger] chain[i] == tree_of(whole[i]),
            forall|i: int| 0 <= i < whole.len() ==> (#[trigger] whole[i]).wf(),
            out.wf(),
            out@ == collapsed(chain.skip(stack.len() as int)),
        decreases stack.len(),
    {
        let ghost rest = chain.skip(stack.len() as int);
        let conf = stack.pop().unwrap();
        proof {
            let place = stack.len() as int;
            assert(conf == whole[place]);
            assert(chain.skip(place).drop_first() =~= rest);
            assert(chain.skip(place)[0] == tree_of(conf));
            assert(stack@ =~= whole.take(place));
        }
        deep_merge(&mut out, conf);
    }
    proof {
        assert(chain.skip(0) =~= chain);
    }
    out
}

/// Flattens a document and the templates it builds on into one document.
///
/// The document's own reference is taken out and resolved, then the
/// reference of what came back, and so on until a document names no
/// template. The chain is then folded from its far end, so that a document
/// always wins over the template it names. A chain that has not ended after
/// `RECURSION_CAP` templates is refused: it would go round for ever where a
/// template names itself.
pub fn resolve_templates<R: TemplateResolver>(first: Document, resolver: R) -> (flat: Result<
    Document,
    TemplateError,
>)
    requires
        first.wf(),
    ensures
        resolved(resolver, first@, flat),
        template_of(first@) is None ==> flat is Ok && flat->Ok_0@ == merged(
            Tree::Mapping(Map::empty()),
            stripped(first@),
        ),
{
    let ghost mut raw: Seq<Tree> = seq![first@];
    let mut current = first;
    let mut extracted = extract_template_string(&mut current);
    let mut stack: Vec<Document> = Vec::new();
    stack.push(current);
    let mut resolved: usize = 0;
    proof {
        lemma_items_trees(stack@);
        assert(items_trees(stack@) =~= stripped_chain(raw));
    }
    loop
        invariant
            resolved <= RECURSION_CAP,
            stack.len() == resolved + 1,
            raw.len() == stack.len(),
            raw[0] == first@,
            forall|i: int| 0 <= i < raw.len() - 1 ==> follows(resolver, #[trigger] raw[i], raw[i + 1]),
            match extracted {
                Some(text) => template_of(raw.last()) == Some(text@),
                None => template_of(raw.last()) is None,
            },
            forall|i: int| 0 <= i < stack.len() ==> (#[trigger] stack[i]).wf(),
            items_trees(stack@) == stripped_chain(raw),
        ensures
            extracted is None,
        decreases RECURSION_CAP - resolved,
    {
        match extracted {
            None => {
                break ;
            },
            Some(reference) => {
                if resolved >= RECURSION_CAP {
                    let error = TemplateError::RecursionLimit(reference);
                    assert(broken_chain(resolver, first@, raw, error));
                    return Err(error);
                }
                match resolver.resolve(reference.as_str()) {
                    Err(error) => {
                        assert(broken_chain(resolver, first@, raw, error));
                        return Err(error);
                    },
                    Ok(found) => {
                        let ghost found_tree = found@;
                        let ghost before = stack@;
                        let mut next = found;
                        extracted = extract_template_string(&mut next);
                        stack.push(next);
                        resolved += 1;
                        proof {
                            let longer = raw.push(found_tree);
                            lemma_items_trees(before);
                            lemma_items_trees(stack@);
                            assert forall|i: int| 0 <= i < longer.len() - 1 implies follows(
                                resolver,
                                #[trigger] longer[i],
                                longer[i + 1],
                            ) by {
                                if i < raw.len() - 1 {
                                    assert(longer[i] == raw[i]);
                                    assert(longer[i + 1] == raw[i + 1]);
                                } else {
                                    assert(longer[i] == raw.last());
                                    assert(longer[i + 1] == found_tree);
                                    assert(resolver.answers(
                                        template_of(raw.last())->Some_0,
                                        Ok(found),
                                    ));
                                }
                            }
                            assert forall|i: int| 0 <= i < stack.len() implies #[trigger] items_trees(
                                stack@,
                            )[i] == stripped_chain(longer)[i] by {
                                if i < before.len() {
                                    assert(stack@[i] == before[i]);
                                    assert(items_trees(before)[i] == stripped_chain(raw)[i]);
                                    assert(longer[i] == raw[i]);
                                }
                            }
                            assert(items_trees(stack@) =~= stripped_chain(longer));
                            assert forall|i: int| 0 <= i < stack.len() implies (
                            #[trigger] stack[i]).wf() by {
                                if i < before.len() {
                                    assert(stack@[i] == before[i]);
                                }
                            }
                            raw = longer;
                        }
                    },
                }
            },
        }
    }
    let flat = collapse(stack);
    proof {
        assert(resolution_chain(resolver, first@, raw));
        if template_of(first@) is None {
            assert(raw.len() == 1);
            let only = stripped_chain(raw);
            assert(only.drop_first() =~= Seq::<Tree>::empty());
            assert(collapsed(only.drop_first()) == Tree::Mapping(Map::empty()));
            assert(only[0] == stripped(first@));
        }
    }
    Ok(flat)
}

/// Reads a document from TOML text and flattens its templates.
pub fn read_document<R: TemplateResolver>(text: &str, resolver: R) -> (flat: Result<
    Document,
    ConfigError,
>)
    ensures
        match flat {
            Ok(doc) => toml_parsed(text@) is Some && resolved(
                resolver,
                toml_parsed(text@)->Some_0,
                Ok(doc),
            ),
            Err(ConfigError::Toml(_)) => toml_parsed(text@) is None,
            Err(ConfigError::Template(error)) => toml_parsed(text@) is Some && resolved(
                resolver,
                toml_parsed(text@)->Some_0,
                Err(error),
            ),
            Err(_) => false,
        },
{
    match read_toml(text) {
        Err(error) => Err(ConfigError::Toml(error)),
        Ok(first) => {
            match resolve_templates(first, resolver) {
                Ok(doc) => Ok(doc),
                Err(error) => Err(ConfigError::Template(error)),
            }
        },
    }
}

} // verus!
