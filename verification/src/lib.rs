//! Builds the description of a plot document in memory and writes it out as
//! the ordered, scope-balanced command stream that the plotting program's
//! embedding interface reads.
//!
//! A document ([`Veusz`]) holds data-sets ([`data`]), pages with what stands
//! on them ([`page`]), and exports ([`export`]). Objects that need a name
//! get it from an explicit set of counters ([`api1::AutoNameIncrement`])
//! when they are made, so that writing a document changes nothing and can
//! be repeated.
//!
//! Everything is written line by line to a sink ([`api1::Sink`]). A sink may
//! refuse any line. Every function that writes says exactly which lines it
//! has handed to the sink, whatever the sink refused
//! ([`api1::scope::emitted`]): writing stops at the first line that is
//! refused, but for the lines that leave the scopes then open. On a sink
//! that is known to take every line ([`api1::Sink::willing`]) every function
//! that writes succeeds. What follows from this for every stream is stated
//! and proved in [`api1::laws`].
//!
//! Numbers with a fraction are held as the literals that stand for them
//! ([`number::Number`]); the library does no arithmetic on them.

use vstd::prelude::*;
use crate::api1::cmd::Command;
use crate::api1::laws::{
    lemma_balanced_lines, lemma_scopes_attended, lines_of, scope_balanced, scopes_attended,
};
use crate::api1::scope::{
    all_balanced, balanced, concat, emitted, flat, lemma_concat_balanced, lemma_flat_balanced,
    lemma_ok_is_unit, lemma_part, lemma_part_place, lemma_parts_begin, lemma_parts_end,
    lemma_parts_in_order, start_of,
};
use crate::api1::{Attempt, Sink};
use crate::data::{Data, DataView};
use crate::export::{Export, ExportView};
use crate::page::{Page, PageView};

pub mod api1;
pub mod data;
pub mod export;
pub mod number;
pub mod page;
pub mod size;
pub mod style;

verus! {

/// A document: data-sets, pages that draw them, and exports.
pub struct Veusz {
    data: Vec<Data>,
    pages: Vec<Page>,
    exports: Vec<Export>,
}

/// What a `Veusz` holds.
pub struct VeuszView {
    /// The data-sets, in the order in which they were added.
    pub data: Seq<DataView>,
    /// The pages, in the order in which they were added.
    pub pages: Seq<PageView>,
    /// The exports, in the order in which they were added.
    pub exports: Seq<ExportView>,
}

/// What each of `sets` holds.
pub open spec fn data_views(sets: Seq<Data>) -> Seq<DataView> {
    sets.map_values(|d: Data| d@)
}

/// What each of `pages` holds.
pub open spec fn page_views(pages: Seq<Page>) -> Seq<PageView> {
    pages.map_values(|p: Page| p@)
}

/// What each of `exports` holds.
pub open spec fn export_views(exports: Seq<Export>) -> Seq<ExportView> {
    exports.map_values(|e: Export| e@)
}

/// The lines of each of `sets`.
pub open spec fn data_parts(sets: Seq<DataView>) -> Seq<Seq<Command>> {
    sets.map_values(|d: DataView| d.commands())
}

/// The lines of each of `pages`.
pub open spec fn page_parts(pages: Seq<PageView>) -> Seq<Seq<Command>> {
    pages.map_values(|p: PageView| p.commands())
}

/// The lines of each of `exports`.
pub open spec fn export_parts(exports: Seq<ExportView>) -> Seq<Seq<Command>> {
    exports.map_values(|e: ExportView| e.commands())
}

impl VeuszView {
    /// What a document is written as, piece by piece: each data-set, then
    /// each page, then each export, each in the order in which they were
    /// added.
    pub open spec fn parts(self) -> Seq<Seq<Command>> {
        data_parts(self.data) + page_parts(self.pages) + export_parts(self.exports)
    }

    /// The lines that a document is written as.
    pub open spec fn commands(self) -> Seq<Command> {
        concat(self.parts())
    }

    /// Each piece is balanced.
    pub proof fn lemma_parts_balanced(self)
        ensures
            all_balanced(self.parts()),
    {
        let parts = self.parts();
        assert forall|i: int| 0 <= i < parts.len() implies balanced(#[trigger] parts[i]) by {
            if i < self.data.len() {
                assert(flat(parts[i]));
                lemma_flat_balanced(parts[i]);
            } else if i < self.data.len() + self.pages.len() {
                self.pages[i - self.data.len()].lemma_balanced();
            } else {
                assert(flat(parts[i]));
                lemma_flat_balanced(parts[i]);
            }
        }
    }

    /// A document is written as a balanced run of lines.
    pub proof fn lemma_balanced(self)
        ensures
            balanced(self.commands()),
    {
        self.lemma_parts_balanced();
        lemma_concat_balanced(self.parts());
    }
}

impl VeuszView {
    /// The lines of a document are balanced: as many enter a scope as
    /// leave one, and no prefix of them leaves more scopes than it enters.
    pub proof fn lemma_scope_balance(self)
        ensures
            scope_balanced(lines_of(self.commands())),
    {
        self.lemma_balanced();
        lemma_balanced_lines(self.commands());
    }

    /// Whatever lines a sink refuses while a document is written to it,
    /// every scope that it was made to enter is attended to.
    pub proof fn lemma_scopes_attended<E>(
        self,
        pre: Seq<Attempt<E>>,
        post: Seq<Attempt<E>>,
        r: Result<(), E>,
    )
        requires
            emitted(pre, post, self.commands(), r),
        ensures
            scopes_attended(post.skip(pre.len() as int)),
    {
        self.lemma_balanced();
        lemma_scopes_attended(pre, post, self.commands(), r);
    }

    /// The data-sets are written first and in the order in which they were
    /// added: line `i` of the document binds data-set `i`.
    pub proof fn lemma_data_in_order(self, i: int)
        requires
            0 <= i < self.data.len(),
        ensures
            i < self.commands().len(),
            self.commands()[i] == self.data[i].command(),
    {
        self.lemma_data_start(i);
        self.lemma_data_start(i + 1);
        lemma_part_place(self.parts(), i);
        assert(self.commands().subrange(i, i + 1)[0] == self.commands()[i]);
    }

    /// Before data-set `i` stand `i` lines.
    proof fn lemma_data_start(self, i: int)
        requires
            0 <= i <= self.data.len(),
        ensures
            start_of(self.parts(), i) == i,
        decreases i,
    {
        if i == 0 {
            assert(self.parts().take(0) =~= Seq::<Seq<Command>>::empty());
        } else {
            self.lemma_data_start(i - 1);
            lemma_part_place(self.parts(), i - 1);
        }
    }

    /// The line at which the lines of page `i` start among the lines of
    /// the document.
    pub open spec fn page_start(self, i: int) -> int {
        start_of(self.parts(), self.data.len() + i)
    }

    /// The pages are written behind the data-sets and in the order in which
    /// they were added: the lines of each stand together, as the page is
    /// written, behind those of the pages added before it and before those
    /// of the pages added after it.
    pub proof fn lemma_pages_in_order(self, i: int)
        requires
            0 <= i < self.pages.len(),
        ensures
            self.data.len() <= self.page_start(i) <= self.page_start(i + 1)
                <= self.commands().len(),
            self.commands().subrange(self.page_start(i), self.page_start(i + 1))
                == self.pages[i].commands(),
    {
        let parts = self.parts();
        lemma_part_place(parts, self.data.len() + i);
        self.lemma_data_start(self.data.len() as int);
        lemma_parts_in_order(parts, self.data.len() as int, self.data.len() + i);
    }
}

impl View for Veusz {
    type V = VeuszView;

    closed spec fn view(&self) -> VeuszView {
        VeuszView {
            data: data_views(self.data@),
            pages: page_views(self.pages@),
            exports: export_views(self.exports@),
        }
    }
}

impl Default for Veusz {
    /// The empty document.
    fn default() -> (document: Self)
        ensures
            document@ == (VeuszView {
                data: Seq::empty(),
                pages: Seq::empty(),
                exports: Seq::empty(),
            }),
    {
        let document = Self { data: Vec::new(), pages: Vec::new(), exports: Vec::new() };
        assert(document@.data =~= Seq::empty());
        assert(document@.pages =~= Seq::empty());
        assert(document@.exports =~= Seq::empty());
        document
    }
}

impl Veusz {
    /// Adds a page after those that the document has.
    pub fn add_page(&mut self, page: Page)
        ensures
            final(self)@ == (VeuszView { pages: old(self)@.pages.push(page@), ..old(self)@ }),
    {
        self.pages.push(page);
        assert(self@.pages =~= old(self)@.pages.push(page@));
    }

    /// The same document with `page` after the pages that it has.
    pub fn with_page(self, page: Page) -> (document: Self)
        ensures
            document@ == (VeuszView { pages: self@.pages.push(page@), ..self@ }),
    {
        let mut document = self;
        document.add_page(page);
        document
    }

    /// The same document with `pages`, in their order, after the pages
    /// that it has.
    pub fn with_pages(self, pages: Vec<Page>) -> (document: Self)
        ensures
            document@ == (VeuszView { pages: self@.pages + page_views(pages@), ..self@ }),
    {
        let mut document = self;
        let mut rest = pages;
        document.pages.append(&mut rest);
        assert(document@.pages =~= self@.pages + page_views(pages@));
        document
    }

    /// Adds a data-set after those that the document has.
    pub fn add_data(&mut self, data: Data)
        ensures
            final(self)@ == (VeuszView { data: old(self)@.data.push(data@), ..old(self)@ }),
    {
        self.data.push(data);
        assert(self@.data =~= old(self)@.data.push(data@));
    }

    /// The same document with `data` after the data-sets that it has.
    pub fn with_data(self, data: Data) -> (document: Self)
        ensures
            document@ == (VeuszView { data: self@.data.push(data@), ..self@ }),
    {
        let mut document = self;
        document.add_data(data);
        document
    }

    /// The same document with `datasets`, in their order, after the
    /// data-sets that it has.
    pub fn with_data_sets(self, datasets: Vec<Data>) -> (document: Self)
        ensures
            document@ == (VeuszView { data: self@.data + data_views(datasets@), ..self@ }),
    {
        let mut document = self;
        let mut rest = datasets;
        document.data.append(&mut rest);
        assert(document@.data =~= self@.data + data_views(datasets@));
        document
    }

    /// The same document with `export` after the exports that it has.
    pub fn with_export<E: Into<Export>>(self, export: E) -> (document: Self)
        ensures
            exists|converted: Export|
                {
                    &&& #[trigger] call_ensures(E::into, (export,), converted)
                    &&& document@ == (VeuszView {
                        exports: self@.exports.push(converted@),
                        ..self@
                    })
                },
    {
        let mut document = self;
        let export: Export = export.into();
        document.exports.push(export);
        assert(document@.exports =~= self@.exports.push(export@));
        document
    }

    /// The same document with `exports`, in their order, after the exports
    /// that it has.
    pub fn with_exports(self, exports: Vec<Export>) -> (document: Self)
        ensures
            document@ == (VeuszView { exports: self@.exports + export_views(exports@), ..self@ }),
    {
        let mut document = self;
        let mut rest = exports;
        document.exports.append(&mut rest);
        assert(document@.exports =~= self@.exports + export_views(exports@));
        document
    }

    /// Writes the document to `sink`, as `write` does.
    pub fn save_configuration<S: Sink>(&self, sink: &mut S) -> (r: Result<(), S::Error>)
        ensures
            emitted(old(sink).history(), final(sink).history(), self@.commands(), r),
            old(sink).willing() ==> r is Ok && final(sink).willing(),
    {
        self.write(sink)
    }

    /// Writes the document to `sink`, as `write` does, and hands the
    /// document back where that succeeded.
    pub fn with_saved_configuration<S: Sink>(self, sink: &mut S) -> (r: Result<Self, S::Error>)
        ensures
            emitted(
                old(sink).history(),
                final(sink).history(),
                self@.commands(),
                match r {
                    Ok(_) => Ok(()),
                    Err(e) => Err(e),
                },
            ),
            r matches Ok(document) ==> document == self,
            old(sink).willing() ==> r is Ok && final(sink).willing(),
    {
        let saved = self.save_configuration(sink);
        proof {
            if saved is Ok {
                lemma_ok_is_unit(saved);
            }
        }
        match saved {
            Ok(()) => Ok(self),
            Err(e) => Err(e),
        }
    }

    /// Writes the document: every data-set, then every page with all that
    /// stands on it, then every export, each in the order in which they
    /// were added. The writing stops at the first line that the sink
    /// refuses, but for the lines that leave the scopes then open.
    pub fn write<S: Sink>(&self, sink: &mut S) -> (r: Result<(), S::Error>)
        ensures
            emitted(old(sink).history(), final(sink).history(), self@.commands(), r),
            old(sink).willing() ==> r is Ok && final(sink).willing(),
    {
        let ghost pre = sink.history();
        let ghost parts = self@.parts();
        proof {
            self@.lemma_parts_balanced();
            lemma_parts_begin(pre, parts);
        }

        let mut i: usize = 0;
        while i < self.data.len()
            invariant
                i <= self.data.len(),
                parts == self@.parts(),
                all_balanced(parts),
                pre == old(sink).history(),
                old(sink).willing() ==> sink.willing(),
                emitted(
                    pre,
                    sink.history(),
                    concat(parts.take(i as int)),
                    Ok::<(), S::Error>(()),
                ),
            decreases self.data.len() - i,
        {
            let ghost mid = sink.history();
            let r = self.data[i].write(sink);
            proof {
                lemma_part(pre, mid, sink.history(), parts, i as int, r);
            }
            r?;
            i += 1;
        }

        let mut j: usize = 0;
        while j < self.pages.len()
            invariant
                j <= self.pages.len(),
                parts == self@.parts(),
                all_balanced(parts),
                pre == old(sink).history(),
                old(sink).willing() ==> sink.willing(),
                emitted(
                    pre,
                    sink.history(),
                    concat(parts.take(self.data.len() + j)),
                    Ok::<(), S::Error>(()),
                ),
            decreases self.pages.len() - j,
        {
            let ghost mid = sink.history();
            let r = self.pages[j].write(sink);
            proof {
                lemma_part(pre, mid, sink.history(), parts, self.data.len() + j, r);
            }
            r?;
            j += 1;
        }

        let ghost before = self.data.len() + self.pages.len();
        let mut k: usize = 0;
        while k < self.exports.len()
            invariant
                k <= self.exports.len(),
                before == self.data.len() + self.pages.len(),
                parts == self@.parts(),
                all_balanced(parts),
                pre == old(sink).history(),
                old(sink).willing() ==> sink.willing(),
                emitted(
                    pre,
                    sink.history(),
                    concat(parts.take(before + k)),
                    Ok::<(), S::Error>(()),
                ),
            decreases self.exports.len() - k,
        {
            let ghost mid = sink.history();
            let r = self.exports[k].write(sink);
            proof {
                lemma_part(pre, mid, sink.history(), parts, before + k, r);
            }
            r?;
            k += 1;
        }

        proof {
            lemma_parts_end(parts);
        }
        Ok(())
    }
}

} // verus!
