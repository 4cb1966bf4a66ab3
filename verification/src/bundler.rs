//! Joins the sources into one text, each under a comment that names its
//! file.

use crate::graph::SourceView;
use crate::paths::{file_name_of, path_file_name};
use crate::source::Sources;
use crate::text::{ends_with, ends_with_blank_line};
use vstd::prelude::*;
use vstd::string::StringExecFns;

verus! {

/// Joins sources into a bundle.
#[derive(Debug, Clone)]
pub struct Bundler {}

/// The comment that stands above the text of the file called `file_name`.
pub open spec fn heading(file_name: Seq<char>) -> Seq<char> {
    "/**\n * bundled from \""@ + file_name + "\"\n */\n\n"@
}

/// The part of the bundle that holds one source: the heading with the last
/// component of the source's path, then the text, then a line feed unless
/// the text ends with an empty line.
pub open spec fn section(source: SourceView) -> Seq<char> {
    heading(file_name_of(source.path).unwrap()) + source.content + if ends_with(
        source.content,
        seq!['\n', '\n'],
    ) {
        Seq::<char>::empty()
    } else {
        seq!['\n']
    }
}

/// The bundle of the given sources: their sections, one after another.
pub open spec fn bundle_of(sources: Seq<SourceView>) -> Seq<char>
    decreases sources.len(),
{
    if sources.len() == 0 {
        Seq::empty()
    } else {
        bundle_of(sources.drop_last()) + section(sources.last())
    }
}

/// Every source has a path with a last component.
pub open spec fn all_named(sources: Seq<SourceView>) -> bool {
    forall|i: int| 0 <= i < sources.len() ==> file_name_of((#[trigger] sources[i]).path).is_some()
}

impl Bundler {
    /// The bundle of `sources`, in their dependency order. Every path must
    /// have a last component, by which its section is headed.
    pub fn bundle(&self, sources: &Sources) -> (out: String)
        requires
            all_named(sources@),
        ensures
            out@ == bundle_of(sources@),
    {
        let mut out = String::new();
        let mut order = sources.dependency_order();
        let ghost all = sources@;
        let ghost mut done: int = 0;
        loop
            invariant
                order.wf(),
                all == sources@,
                all_named(all),
                0 <= done <= all.len(),
                order@ == all.skip(done),
                out@ == bundle_of(all.take(done)),
            ensures
                done == all.len(),
                out@ == bundle_of(all.take(done)),
            decreases order@.len(),
        {
            let source = match order.next() {
                Some(source) => source,
                None => {
                    break ;
                },
            };
            assert(source@ == all[done]);
            let ghost before = out@;
            let name = path_file_name(source.path.as_str()).unwrap();
            out.append("/**\n * bundled from \"");
            out.append(name.as_str());
            out.append("\"\n */\n\n");
            out.append(source.content.as_str());
            if !ends_with_blank_line(source.content.as_str()) {
                out.append("\n");
                proof {
                    reveal_strlit("\n");
                    assert("\n"@ == seq!['\n']);
                }
            }
            proof {
                assert(out@ == before + section(all[done]));
                assert(all.take(done + 1).drop_last() == all.take(done));
                assert(all.take(done + 1).last() == all[done]);
                assert(all.skip(done).drop_first() == all.skip(done + 1));
                done = done + 1;
            }
        }
        proof {
            assert(all.take(all.len() as int) == all);
        }
        out
    }

    /// The bundle of `sources`, or `None` where the path of a source has no
    /// last component.
    pub fn try_bundle(&self, sources: &Sources) -> (out: Option<String>)
        ensures
            out.is_some() <==> all_named(sources@),
            out matches Some(text) ==> text@ == bundle_of(sources@),
    {
        let mut order = sources.dependency_order();
        let ghost all = sources@;
        let ghost mut done: int = 0;
        loop
            invariant
                order.wf(),
                all == sources@,
                0 <= done <= all.len(),
                order@ == all.skip(done),
                all_named(all.take(done)),
            ensures
                all_named(all),
            decreases order@.len(),
        {
            let source = match order.next() {
                Some(source) => source,
                None => {
                    proof {
                        assert(all.take(done) == all);
                    }
                    break ;
                },
            };
            assert(source@ == all[done]);
            if path_file_name(source.path.as_str()).is_none() {
                return None;
            }
            proof {
                assert(all.skip(done).drop_first() == all.skip(done + 1));
                assert forall|i: int| 0 <= i < done + 1 implies file_name_of(
                    (#[trigger] all.take(done + 1)[i]).path,
                ).is_some() by {
                    if i < done {
                        assert(all.take(done)[i] == all[i]);
                    }
                }
                done = done + 1;
            }
        }
        Some(self.bundle(sources))
    }
}

} // verus!
