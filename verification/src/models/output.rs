//! Planned artifacts: what is to be written, where, and from what.

use crate::models::datetime::DateTime;
use crate::models::tplvars::{GlobalModel, GlobalVars};
use vstd::prelude::*;

verus! {

/// An artifact of the build. One with content is written as it stands; one
/// without is rendered from its template and variables. The priority for
/// the sitemap is given in hundredths.
#[derive(Debug)]
pub struct Output {
    pub visit_url: String,
    pub output_files: Vec<String>,
    pub template_vars: GlobalVars,
    pub template_file: String,
    pub file_content: String,
    pub lastmod: DateTime,
    pub sitemap_priority: u32,
}

/// The mathematical content of an `Output`.
pub struct OutputModel {
    pub visit_url: Seq<char>,
    pub output_files: Seq<Seq<char>>,
    pub template_vars: GlobalModel,
    pub template_file: Seq<char>,
    pub file_content: Seq<char>,
    pub lastmod: DateTime,
    pub sitemap_priority: nat,
}

impl DeepView for Output {
    type V = OutputModel;

    open spec fn deep_view(&self) -> OutputModel {
        OutputModel {
            visit_url: self.visit_url@,
            output_files: self.output_files.deep_view(),
            template_vars: self.template_vars@,
            template_file: self.template_file@,
            file_content: self.file_content@,
            lastmod: self.lastmod,
            sitemap_priority: self.sitemap_priority as nat,
        }
    }
}

impl View for Output {
    type V = OutputModel;

    open spec fn view(&self) -> OutputModel {
        self.deep_view()
    }
}

/// An entry of the sitemap: an address, its priority in hundredths and the
/// time of its last change.
#[derive(Debug)]
pub struct SitemapEntry {
    pub loc: String,
    pub priority: u32,
    pub lastmod: DateTime,
}

/// The mathematical content of a `SitemapEntry`.
pub struct SitemapEntryModel {
    pub loc: Seq<char>,
    pub priority: nat,
    pub lastmod: DateTime,
}

impl DeepView for SitemapEntry {
    type V = SitemapEntryModel;

    open spec fn deep_view(&self) -> SitemapEntryModel {
        SitemapEntryModel {
            loc: self.loc@,
            priority: self.priority as nat,
            lastmod: self.lastmod,
        }
    }
}

impl View for SitemapEntry {
    type V = SitemapEntryModel;

    open spec fn view(&self) -> SitemapEntryModel {
        self.deep_view()
    }
}

/// The artifact is written as it stands, not rendered.
pub open spec fn is_literal(o: OutputModel) -> bool {
    o.file_content.len() > 0
}

/// The artifact is listed in the sitemap: its priority is at least one hundredth.
pub open spec fn in_sitemap(o: OutputModel) -> bool {
    o.sitemap_priority >= 1
}

/// The number of files that the artifacts are written to.
pub open spec fn total_files(outputs: Seq<OutputModel>) -> nat
    decreases outputs.len(),
{
    if outputs.len() == 0 {
        0
    } else {
        total_files(outputs.drop_last()) + outputs.last().output_files.len()
    }
}

impl Output {
    /// Whether the artifact is written as it stands.
    pub fn is_literal(&self) -> (b: bool)
        ensures
            b == is_literal(self@),
    {
        !self.file_content.as_str().is_empty()
    }

    /// Whether the artifact is listed in the sitemap.
    pub fn in_sitemap(&self) -> (b: bool)
        ensures
            b == in_sitemap(self@),
    {
        self.sitemap_priority >= 1
    }
}

/// The number of files that the artifacts are written to, where it can be
/// counted.
pub fn count_files(outputs: &Vec<Output>) -> (count: Option<usize>)
    ensures
        match count {
            Some(n) => n == total_files(outputs.deep_view()),
            None => total_files(outputs.deep_view()) > usize::MAX,
        },
{
    let mut count: usize = 0;
    let mut i: usize = 0;
    assert(outputs.deep_view().take(0) =~= Seq::<OutputModel>::empty());
    while i < outputs.len()
        invariant
            i <= outputs@.len(),
            count == total_files(outputs.deep_view().take(i as int)),
        decreases outputs@.len() - i,
    {
        let files = outputs[i].output_files.len();
        proof {
            let now = outputs.deep_view().take(i + 1);
            assert(now.drop_last() =~= outputs.deep_view().take(i as int));
            assert(now.last() == outputs@[i as int]@);
            lemma_total_files_grows(outputs.deep_view(), i + 1);
        }
        if files > usize::MAX - count {
            return None;
        }
        count = count + files;
        i += 1;
    }
    assert(outputs.deep_view().take(outputs@.len() as int) =~= outputs.deep_view());
    Some(count)
}

/// The files of the first artifacts are among the files of them all.
pub proof fn lemma_total_files_grows(outputs: Seq<OutputModel>, upto: int)
    requires
        0 <= upto <= outputs.len(),
    ensures
        total_files(outputs.take(upto)) <= total_files(outputs),
    decreases outputs.len() - upto,
{
    if upto < outputs.len() {
        lemma_total_files_grows(outputs, upto + 1);
        assert(outputs.take(upto + 1).drop_last() =~= outputs.take(upto));
    } else {
        assert(outputs.take(upto) =~= outputs);
    }
}

} // verus!
