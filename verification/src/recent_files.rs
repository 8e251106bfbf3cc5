//! The list of recently opened tab files, newest first, at most ten.
use vstd::prelude::*;
use crate::text::str_equal;

verus! {

/// How many files the list keeps.
pub const MAX_RECENT: usize = 10;

#[derive(Debug, Clone)]
pub struct RecentFile {
    pub path: String,
    pub title: String,
}

impl View for RecentFile {
    type V = (Seq<char>, Seq<char>);

    open spec fn view(&self) -> (Seq<char>, Seq<char>) {
        (self.path@, self.title@)
    }
}

pub open spec fn files_view(files: Seq<RecentFile>) -> Seq<(Seq<char>, Seq<char>)> {
    files.map_values(|file: RecentFile| file@)
}

/// The entries whose path is not `path`, in order.
pub open spec fn without_path(files: Seq<(Seq<char>, Seq<char>)>, path: Seq<char>) -> Seq<(Seq<char>, Seq<char>)>
    decreases files.len(),
{
    if files.len() == 0 {
        Seq::empty()
    } else {
        let rest = without_path(files.drop_last(), path);
        if files.last().0 == path { rest } else { rest.push(files.last()) }
    }
}

/// The list after opening `path`: the file at the front, its older entry
/// gone, the rest in order, cut to the limit.
pub open spec fn added(files: Seq<(Seq<char>, Seq<char>)>, path: Seq<char>, title: Seq<char>) -> Seq<(Seq<char>, Seq<char>)> {
    let list = seq![(path, title)] + without_path(files, path);
    if list.len() > MAX_RECENT { list.take(MAX_RECENT as int) } else { list }
}

/// No path occurs twice.
pub open spec fn distinct_paths(files: Seq<(Seq<char>, Seq<char>)>) -> bool {
    forall|i: int, j: int| 0 <= i < j < files.len() ==> files[i].0 != files[j].0
}

fn copy_string(text: &String) -> (copy: String)
    ensures
        copy@ == text@,
{
    text.clone()
}

/// Records that `file_path` (titled `title`) was opened.
pub fn add(files: Vec<RecentFile>, file_path: &str, title: &str) -> (list: Vec<RecentFile>)
    ensures
        files_view(list@) == added(files_view(files@), file_path@, title@),
{
    let ghost path = file_path@;
    let mut list: Vec<RecentFile> = Vec::new();
    list.push(RecentFile { path: file_path.to_owned(), title: title.to_owned() });
    let mut i: usize = 0;
    while i < files.len()
        invariant
            i <= files@.len(),
            path == file_path@,
            files_view(list@) == seq![(file_path@, title@)] + without_path(files_view(files@.take(i as int)), path),
        decreases files@.len() - i,
    {
        proof {
            assert(files_view(files@.take(i + 1)).drop_last() =~= files_view(files@.take(i as int)));
        }
        let same = str_equal(files[i].path.as_str(), file_path);
        if !same {
            let entry = RecentFile { path: copy_string(&files[i].path), title: copy_string(&files[i].title) };
            proof {
                assert(files_view(list@.push(entry)) =~= files_view(list@).push(entry@));
            }
            list.push(entry);
        }
        i += 1;
        assert(files_view(list@) =~= seq![(file_path@, title@)] + without_path(files_view(files@.take(i as int)), path));
    }
    assert(files@.take(i as int) =~= files@);
    list.truncate(MAX_RECENT);
    proof {
        let full = seq![(file_path@, title@)] + without_path(files_view(files@), path);
        if full.len() > MAX_RECENT {
            assert(files_view(list@) =~= full.take(MAX_RECENT as int));
        }
    }
    list
}

proof fn lemma_without_path_facts(files: Seq<(Seq<char>, Seq<char>)>, path: Seq<char>)
    ensures
        forall|i: int| 0 <= i < without_path(files, path).len() ==> (#[trigger] without_path(files, path)[i]).0 != path,
        forall|i: int| 0 <= i < without_path(files, path).len() ==> files.contains(#[trigger] without_path(files, path)[i]),
        without_path(files, path).len() <= files.len(),
        distinct_paths(files) ==> distinct_paths(without_path(files, path)),
    decreases files.len(),
{
    if files.len() > 0 {
        let rest = files.drop_last();
        lemma_without_path_facts(rest, path);
        let kept = without_path(rest, path);
        assert forall|i: int| 0 <= i < kept.len() implies files.contains(#[trigger] kept[i]) by {
            let j = choose|j: int| 0 <= j < rest.len() && rest[j] == kept[i];
            assert(files[j] == kept[i]);
        }
        if distinct_paths(files) && files.last().0 != path {
            assert forall|i: int| 0 <= i < kept.len() implies (#[trigger] kept[i]).0 != files.last().0 by {
                let j = choose|j: int| 0 <= j < rest.len() && rest[j] == kept[i];
                assert(files[j] == kept[i]);
                assert(files[j].0 != files[files.len() - 1].0);
            }
        }
    }
}

/// Opening a file puts it first, keeps at most ten files, and never lists
/// a path twice when the list did not.
pub proof fn lemma_add_keeps_list_well_formed(files: Seq<(Seq<char>, Seq<char>)>, path: Seq<char>, title: Seq<char>)
    ensures
        added(files, path, title)[0] == (path, title),
        added(files, path, title).len() <= MAX_RECENT,
        added(files, path, title).len() == (if files.len() + 1 <= MAX_RECENT { without_path(files, path).len() + 1 } else {
            if without_path(files, path).len() + 1 > MAX_RECENT { MAX_RECENT as nat } else { without_path(files, path).len() + 1 }
        }),
        forall|i: int| 1 <= i < added(files, path, title).len() ==> (#[trigger] added(files, path, title)[i]).0 != path,
        distinct_paths(files) ==> distinct_paths(added(files, path, title)),
{
    lemma_without_path_facts(files, path);
    let list = seq![(path, title)] + without_path(files, path);
    let kept = without_path(files, path);
    assert forall|i: int| 1 <= i < list.len() implies (#[trigger] list[i]).0 != path by {
        assert(list[i] == kept[i - 1]);
    }
    if distinct_paths(files) {
        assert forall|i: int, j: int| 0 <= i < j < list.len() implies list[i].0 != list[j].0 by {
            if i > 0 {
                assert(list[i] == kept[i - 1]);
                assert(list[j] == kept[j - 1]);
            } else {
                assert(list[j] == kept[j - 1]);
            }
        }
    }
}

proof fn lemma_without_path_concat(a: Seq<(Seq<char>, Seq<char>)>, b: Seq<(Seq<char>, Seq<char>)>, path: Seq<char>)
    ensures
        without_path(a + b, path) == without_path(a, path) + without_path(b, path),
    decreases b.len(),
{
    if b.len() == 0 {
        assert(a + b =~= a);
        assert(without_path(a, path) + without_path(b, path) =~= without_path(a, path));
    } else {
        assert((a + b).drop_last() =~= a + b.drop_last());
        assert((a + b).last() == b.last());
        lemma_without_path_concat(a, b.drop_last(), path);
        if b.last().0 == path {
        } else {
            assert(without_path(a, path) + without_path(b.drop_last(), path).push(b.last())
                =~= (without_path(a, path) + without_path(b.drop_last(), path)).push(b.last()));
        }
    }
}

proof fn lemma_without_absent_path(files: Seq<(Seq<char>, Seq<char>)>, path: Seq<char>)
    requires
        forall|i: int| 0 <= i < files.len() ==> (#[trigger] files[i]).0 != path,
    ensures
        without_path(files, path) == files,
    decreases files.len(),
{
    if files.len() > 0 {
        lemma_without_absent_path(files.drop_last(), path);
        assert(files.drop_last().push(files.last()) =~= files);
    }
}

/// Opening the same file twice leaves the list as opening it once.
pub proof fn lemma_add_twice_is_add_once(files: Seq<(Seq<char>, Seq<char>)>, path: Seq<char>, title: Seq<char>)
    ensures
        added(added(files, path, title), path, title) == added(files, path, title),
{
    let list = added(files, path, title);
    lemma_add_keeps_list_well_formed(files, path, title);
    let rest = list.drop_first();
    assert(list =~= seq![(path, title)] + rest);
    assert forall|i: int| 0 <= i < rest.len() implies (#[trigger] rest[i]).0 != path by {
        assert(rest[i] == list[i + 1]);
    }
    lemma_without_absent_path(rest, path);
    lemma_without_path_concat(seq![(path, title)], rest, path);
    let single = seq![(path, title)];
    assert(single.drop_last() =~= Seq::<(Seq<char>, Seq<char>)>::empty());
    assert(without_path(single.drop_last(), path) =~= Seq::<(Seq<char>, Seq<char>)>::empty());
    assert(single.last().0 == path);
    assert(without_path(single, path) =~= Seq::<(Seq<char>, Seq<char>)>::empty());
    assert(without_path(list, path) =~= rest);
    assert(seq![(path, title)] + without_path(list, path) =~= list);
}

} // verus!
