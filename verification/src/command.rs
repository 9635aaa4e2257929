//! The `veryl ipxact` command: which symbols of the analysed project become
//! IP-XACT components, and in what order.
use vstd::prelude::*;

use crate::builder::{generated_views, spec_generated, GeneratedFile, IpxactBuilder, TopLevelItem};
use crate::metadata::Metadata;
use crate::model::{Symbol, SymbolKind};
use crate::text::chars_of;

verus! {

/// Options of `veryl ipxact`.
#[derive(Debug)]
pub struct OptIpxact {
    /// Target files (all project files when empty).
    pub files: Vec<String>,
}

/// The `veryl ipxact` command.
pub struct CmdIpxact {
    opt: OptIpxact,
}

impl CmdIpxact {
    /// The command with the given options.
    pub fn new(opt: OptIpxact) -> (res: Self)
        ensures
            res.spec_opt() == opt,
    {
        Self { opt }
    }

    /// The options of the command.
    pub closed spec fn spec_opt(self) -> OptIpxact {
        self.opt
    }

    /// The options of the command.
    pub fn opt(&self) -> (res: &OptIpxact)
        ensures
            *res == self.spec_opt(),
    {
        &self.opt
    }
}

// ---------------------------------------------------------------------------
// Text order
// ---------------------------------------------------------------------------

/// Lexicographic order of texts by character (code point), the order in
/// which `String`s compare.
pub open spec fn text_less(a: Seq<char>, b: Seq<char>) -> bool
    decreases a.len(),
{
    if a.len() == 0 {
        b.len() > 0
    } else if b.len() == 0 {
        false
    } else if a[0] != b[0] {
        a[0] < b[0]
    } else {
        text_less(a.drop_first(), b.drop_first())
    }
}

/// No text is less than itself.
pub proof fn lemma_text_less_irreflexive(a: Seq<char>)
    ensures
        !text_less(a, a),
    decreases a.len(),
{
    if a.len() > 0 {
        lemma_text_less_irreflexive(a.drop_first());
    }
}

/// The text order is transitive.
pub proof fn lemma_text_less_transitive(a: Seq<char>, b: Seq<char>, c: Seq<char>)
    requires
        text_less(a, b),
        text_less(b, c),
    ensures
        text_less(a, c),
    decreases a.len(),
{
    if a.len() > 0 && b.len() > 0 && c.len() > 0 && a[0] == b[0] && b[0] == c[0] {
        lemma_text_less_transitive(a.drop_first(), b.drop_first(), c.drop_first());
    }
}

/// Of two different texts, one is less than the other.
pub proof fn lemma_text_less_total(a: Seq<char>, b: Seq<char>)
    requires
        a != b,
    ensures
        text_less(a, b) || text_less(b, a),
    decreases a.len(),
{
    if a.len() > 0 && b.len() > 0 && a[0] == b[0] {
        if a.drop_first() == b.drop_first() {
            assert(a =~= seq![a[0]] + a.drop_first());
            assert(b =~= seq![b[0]] + b.drop_first());
        }
        lemma_text_less_total(a.drop_first(), b.drop_first());
    } else if a.len() == 0 && b.len() == 0 {
        assert(a =~= b);
    }
}

/// Whether `a` comes before `b` in text order.
pub fn less_text(a: &str, b: &str) -> (res: bool)
    ensures
        res == text_less(a@, b@),
{
    let x = chars_of(a);
    let y = chars_of(b);
    let mut i: usize = 0;
    proof {
        assert(x@.skip(0) =~= x@);
        assert(y@.skip(0) =~= y@);
    }
    while i < x.len() && i < y.len() && x[i] == y[i]
        invariant
            x@ == a@,
            y@ == b@,
            i <= x@.len(),
            i <= y@.len(),
            text_less(a@, b@) == text_less(x@.skip(i as int), y@.skip(i as int)),
        decreases x@.len() - i,
    {
        proof {
            assert(x@.skip(i as int).drop_first() =~= x@.skip(i + 1));
            assert(y@.skip(i as int).drop_first() =~= y@.skip(i + 1));
        }
        i += 1;
    }
    proof {
        let s = x@.skip(i as int);
        let t = y@.skip(i as int);
        if i < x@.len() && i < y@.len() {
            assert(s[0] == x@[i as int]);
            assert(t[0] == y@[i as int]);
        }
    }
    if i == x.len() {
        i < y.len()
    } else if i == y.len() {
        false
    } else {
        x[i] < y[i]
    }
}

// ---------------------------------------------------------------------------
// Module selection
// ---------------------------------------------------------------------------

/// A symbol of the analysed project together with its identifier text.
#[derive(Debug)]
pub struct SymbolEntry {
    pub text: String,
    pub symbol: Symbol,
}

/// Whether a symbol is a public module of the project named `project`.
pub open spec fn is_project_module(e: SymbolEntry, project: Seq<char>) -> bool {
    &&& e.symbol.namespace@ == project
    &&& e.symbol.public
    &&& e.symbol.kind is Module
}

/// The public modules of the project by name: each entry that qualifies
/// replaces an earlier one of the same name.
pub open spec fn module_table(es: Seq<SymbolEntry>, project: Seq<char>) -> Map<Seq<char>, Symbol>
    decreases es.len(),
{
    if es.len() == 0 {
        Map::<Seq<char>, Symbol>::empty()
    } else {
        let t = module_table(es.drop_last(), project);
        let e = es.last();
        if is_project_module(e, project) {
            t.insert(e.text@, e.symbol)
        } else {
            t
        }
    }
}

/// The items are in strictly increasing text order of their names.
pub open spec fn sorted_by_name(items: Seq<TopLevelItem>) -> bool {
    forall|i: int, j: int|
        0 <= i < j < items.len() ==> text_less(
            #[trigger] items[i].file_name@,
            #[trigger] items[j].file_name@,
        )
}

/// The items list exactly the entries of the table `t`: each item is an
/// entry, and each entry is an item.
pub open spec fn lists_table(items: Seq<TopLevelItem>, t: Map<Seq<char>, Symbol>) -> bool {
    &&& forall|k: int|
        0 <= k < items.len() ==> t.contains_key(#[trigger] items[k].file_name@) && t[items[k].file_name@]
            == items[k].symbol
    &&& forall|key: Seq<char>|
        #[trigger] t.contains_key(key) ==> exists|k: int|
            0 <= k < items.len() && #[trigger] items[k].file_name@ == key
}

/// Adds one table entry to sorted items, replacing the item of the same name.
fn insert_item(items: &mut Vec<TopLevelItem>, item: TopLevelItem, Ghost(t): Ghost<Map<Seq<char>, Symbol>>)
    requires
        sorted_by_name(old(items)@),
        lists_table(old(items)@, t),
    ensures
        sorted_by_name(final(items)@),
        lists_table(final(items)@, t.insert(item.file_name@, item.symbol)),
{
    let ghost old_items = items@;
    let ghost key = item.file_name@;
    let ghost t2 = t.insert(key, item.symbol);
    let mut pos: usize = 0;
    while pos < items.len() && less_text(items[pos].file_name.as_str(), item.file_name.as_str())
        invariant
            items@ == old_items,
            key == item.file_name@,
            pos <= items@.len(),
            forall|k: int| 0 <= k < pos ==> text_less(#[trigger] items@[k].file_name@, key),
        decreases items@.len() - pos,
    {
        pos += 1;
    }
    proof {
        // Every name differs from every other.
        assert forall|i: int, j: int|
            0 <= i < old_items.len() && 0 <= j < old_items.len() && i != j implies #[trigger] old_items[i].file_name@
            != #[trigger] old_items[j].file_name@ by {
            if i < j {
                assert(text_less(old_items[i].file_name@, old_items[j].file_name@));
            } else {
                assert(text_less(old_items[j].file_name@, old_items[i].file_name@));
            }
            lemma_text_less_irreflexive(old_items[i].file_name@);
        }
        assert forall|k: int| 0 <= k < pos implies #[trigger] old_items[k].file_name@ != key by {
            assert(text_less(old_items[k].file_name@, key));
            lemma_text_less_irreflexive(key);
        }
    }
    if pos < items.len() && items[pos].file_name == item.file_name {
        items.set(pos, item);
        proof {
            let new_items = items@;
            assert forall|i: int, j: int| 0 <= i < j < new_items.len() implies text_less(
                #[trigger] new_items[i].file_name@,
                #[trigger] new_items[j].file_name@,
            ) by {
                assert(text_less(old_items[i].file_name@, old_items[j].file_name@));
            }
            assert forall|k: int| 0 <= k < new_items.len() implies t2.contains_key(
                #[trigger] new_items[k].file_name@,
            ) && t2[new_items[k].file_name@] == new_items[k].symbol by {
                if k != pos {
                    assert(old_items[k].file_name@ != old_items[pos as int].file_name@);
                }
            }
            assert forall|k2: Seq<char>| #[trigger] t2.contains_key(k2) implies exists|k: int|
                0 <= k < new_items.len() && #[trigger] new_items[k].file_name@ == k2 by {
                if k2 == key {
                    assert(new_items[pos as int].file_name@ == k2);
                } else {
                    let k = choose|k: int|
                        0 <= k < old_items.len() && #[trigger] old_items[k].file_name@ == k2;
                    assert(new_items[k].file_name@ == k2);
                }
            }
        }
    } else {
        proof {
            if pos < old_items.len() {
                assert(!text_less(old_items[pos as int].file_name@, key));
                lemma_text_less_total(old_items[pos as int].file_name@, key);
                assert(text_less(key, old_items[pos as int].file_name@));
                assert forall|k: int| pos < k < old_items.len() implies text_less(
                    key,
                    #[trigger] old_items[k].file_name@,
                ) by {
                    assert(text_less(old_items[pos as int].file_name@, old_items[k].file_name@));
                    lemma_text_less_transitive(
                        key,
                        old_items[pos as int].file_name@,
                        old_items[k].file_name@,
                    );
                }
            }
            assert forall|k: int| 0 <= k < old_items.len() implies #[trigger] old_items[k].file_name@
                != key by {
                if k >= pos {
                    assert(text_less(key, old_items[k].file_name@));
                    lemma_text_less_irreflexive(key);
                }
            }
        }
        items.insert(pos, item);
        proof {
            let new_items = items@;
            assert(new_items == old_items.insert(pos as int, new_items[pos as int]));
            assert forall|i: int, j: int| 0 <= i < j < new_items.len() implies text_less(
                #[trigger] new_items[i].file_name@,
                #[trigger] new_items[j].file_name@,
            ) by {
                if j < pos {
                    assert(text_less(old_items[i].file_name@, old_items[j].file_name@));
                } else if j == pos {
                    assert(text_less(old_items[i].file_name@, key));
                } else if i == pos {
                    assert(text_less(key, old_items[j - 1].file_name@));
                } else if i < pos {
                    assert(text_less(old_items[i].file_name@, key));
                    assert(text_less(key, old_items[j - 1].file_name@));
                    lemma_text_less_transitive(
                        old_items[i].file_name@,
                        key,
                        old_items[j - 1].file_name@,
                    );
                } else {
                    assert(text_less(old_items[i - 1].file_name@, old_items[j - 1].file_name@));
                }
            }
            assert forall|k: int| 0 <= k < new_items.len() implies t2.contains_key(
                #[trigger] new_items[k].file_name@,
            ) && t2[new_items[k].file_name@] == new_items[k].symbol by {
                if k < pos {
                    assert(new_items[k] == old_items[k]);
                    assert(old_items[k].file_name@ != key);
                } else if k > pos {
                    assert(new_items[k] == old_items[k - 1]);
                    assert(old_items[k - 1].file_name@ != key);
                }
            }
            assert forall|k2: Seq<char>| #[trigger] t2.contains_key(k2) implies exists|k: int|
                0 <= k < new_items.len() && #[trigger] new_items[k].file_name@ == k2 by {
                if k2 == key {
                    assert(new_items[pos as int].file_name@ == k2);
                } else {
                    let k = choose|k: int|
                        0 <= k < old_items.len() && #[trigger] old_items[k].file_name@ == k2;
                    if k < pos {
                        assert(new_items[k].file_name@ == k2);
                    } else {
                        assert(new_items[k + 1].file_name@ == k2);
                    }
                }
            }
        }
    }
}

impl CmdIpxact {
    /// The public modules of the project named in `metadata`, ordered by
    /// name. IP-XACT describes component interfaces, so only modules (not
    /// interfaces or packages) are taken; of several symbols with one name,
    /// the last one counts.
    pub fn select_modules(metadata: &Metadata, symbols: Vec<SymbolEntry>) -> (res: Vec<
        TopLevelItem,
    >)
        ensures
            sorted_by_name(res@),
            lists_table(res@, module_table(symbols@, metadata.project.name@)),
    {
        let ghost project = metadata.project.name@;
        let ghost es = symbols@;
        let mut res: Vec<TopLevelItem> = Vec::new();
        let ghost mut seen: int = 0;
        proof {
            assert(es.take(0) =~= Seq::<SymbolEntry>::empty());
        }
        for e in it: symbols
            invariant
                project == metadata.project.name@,
                it.seq() == es,
                seen == it.index(),
                sorted_by_name(res@),
                lists_table(res@, module_table(es.take(it.index() as int), project)),
        {
            let ghost t = module_table(es.take(it.index() as int), project);
            let ghost next = es.take(it.index() + 1);
            proof {
                assert(next.drop_last() =~= es.take(it.index() as int));
                assert(next.last() == e);
            }
            let keep = e.symbol.public && match &e.symbol.kind {
                SymbolKind::Module(_) => true,
                _ => false,
            } && e.symbol.namespace == metadata.project.name;
            if keep {
                let SymbolEntry { text, symbol } = e;
                insert_item(&mut res, TopLevelItem { file_name: text, symbol }, Ghost(t));
            }
            proof {
                seen = seen + 1;
            }
        }
        proof {
            assert(es.take(seen) =~= es);
        }
        res
    }
}

impl CmdIpxact {
    /// The component descriptions of the project: one `<module>.xml` file
    /// for each public module of the project among `symbols`, ordered by
    /// module name. The caller reads and analyses the sources to get the
    /// symbols, and writes the files into `[ipxact] path`.
    pub fn exec(&self, metadata: &Metadata, symbols: Vec<SymbolEntry>) -> (res: Vec<GeneratedFile>)
        ensures
            exists|items: Seq<TopLevelItem>|
                {
                    &&& sorted_by_name(items)
                    &&& lists_table(items, module_table(symbols@, metadata.project.name@))
                    &&& generated_views(res@) == spec_generated(*metadata, items)
                },
    {
        let modules = Self::select_modules(metadata, symbols);
        let ghost items = modules@;
        let builder = IpxactBuilder::new(metadata, modules);
        let files = builder.build();
        proof {
            assert(sorted_by_name(items));
        }
        files
    }
}

} // verus!
