//! Where a record's image is kept.

use crate::error::ErrorKind;
use crate::record::{Comic, ComicView};
use vstd::prelude::*;
use vstd::string::*;

verus! {

/// The directory that the images are kept in.
pub const IMAGE_DIR: &'static str = "comics";

/// The final path segment of `url`: what stands behind its last `/`, or all
/// of it where it has none.
pub open spec fn final_segment(url: Seq<char>) -> Seq<char>
    decreases url.len(),
{
    if url.len() == 0 || url.last() == '/' {
        Seq::empty()
    } else {
        final_segment(url.drop_last()).push(url.last())
    }
}

/// The final segment of `head/tail` is `tail`, where `tail` holds no `/`.
pub proof fn lemma_final_segment_splits(head: Seq<char>, tail: Seq<char>)
    requires
        !tail.contains('/'),
    ensures
        final_segment(head + seq!['/'] + tail) == tail,
    decreases tail.len(),
{
    let url = head + seq!['/'] + tail;
    if tail.len() == 0 {
        assert(url.last() == '/');
        assert(tail =~= Seq::<char>::empty());
    } else {
        assert(url.last() == tail.last());
        assert(tail.contains(tail.last())) by {
            assert(tail[tail.len() - 1] == tail.last());
        }
        assert(!tail.drop_last().contains('/')) by {
            let front = tail.drop_last();
            if front.contains('/') {
                let i = choose|i: int| 0 <= i < front.len() && front[i] == '/';
                assert(tail[i] == '/');
            }
        }
        assert(url.drop_last() =~= head + seq!['/'] + tail.drop_last());
        lemma_final_segment_splits(head, tail.drop_last());
        assert(tail.drop_last().push(tail.last()) =~= tail);
    }
}

/// The final segment holds no `/`, and the address ends with it.
pub proof fn lemma_final_segment_is_suffix(url: Seq<char>)
    ensures
        !final_segment(url).contains('/'),
        final_segment(url).len() <= url.len(),
        final_segment(url) == url.subrange(url.len() - final_segment(url).len(), url.len() as int),
        url.contains('/') ==> final_segment(url).len() < url.len() && url[url.len()
            - final_segment(url).len() - 1] == '/',
        !url.contains('/') ==> final_segment(url) == url,
    decreases url.len(),
{
    let segment = final_segment(url);
    if url.len() == 0 {
        assert(segment =~= url);
    } else if url.last() == '/' {
        assert(url[url.len() - 1] == '/');
        assert(segment =~= url.subrange(url.len() as int, url.len() as int));
    } else {
        let front = url.drop_last();
        lemma_final_segment_is_suffix(front);
        let inner = final_segment(front);
        assert(segment == inner.push(url.last()));
        if segment.contains('/') {
            let i = choose|i: int| 0 <= i < segment.len() && segment[i] == '/';
            assert(inner[i] == '/');
        }
        assert(segment =~= url.subrange(url.len() - segment.len(), url.len() as int));
        if url.contains('/') {
            let i = choose|i: int| 0 <= i < url.len() && url[i] == '/';
            assert(front[i] == '/');
        } else {
            assert(!front.contains('/')) by {
                if front.contains('/') {
                    let i = choose|i: int| 0 <= i < front.len() && front[i] == '/';
                    assert(url[i] == '/');
                }
            }
            assert(segment =~= url);
        }
    }
}

/// Finds the final path segment of `url`.
pub fn segment_of(url: &str) -> (segment: &str)
    ensures
        segment@ == final_segment(url@),
{
    let total = url.unicode_len();
    let mut start: usize = 0;
    let mut count: usize = 0;
    for c in it: url.chars()
        invariant
            total == url@.len(),
            it.seq() == url@,
            count == it.index(),
            start <= count <= total,
            url@.subrange(start as int, count as int) == final_segment(url@.take(count as int)),
    {
        proof {
            let before = url@.take(count as int);
            let now = url@.take(count + 1);
            assert(now.drop_last() =~= before);
            assert(now.last() == c);
            if c != '/' {
                assert(url@.subrange(start as int, count + 1) =~= url@.subrange(
                    start as int,
                    count as int,
                ).push(c));
            }
        }
        count = count + 1;
        if c == '/' {
            start = count;
        }
    }
    assert(url@.take(count as int) =~= url@);
    url.substring_char(start, total)
}

/// The path of the image file for the address `img` in the directory `dir`:
/// the file is named by the final path segment of the address.
pub open spec fn image_path(dir: Seq<char>, img: Seq<char>) -> Seq<char> {
    dir + "/"@ + final_segment(img)
}

/// Whether `name` can name a file inside a directory: it is not empty, is
/// neither `.` nor `..`, and holds no `/`.
pub open spec fn safe_file_name(name: Seq<char>) -> bool {
    &&& name.len() > 0
    &&& name != seq!['.']
    &&& name != seq!['.', '.']
    &&& !name.contains('/')
}

/// Tells whether `name` can name a file inside a directory.
pub fn is_safe_file_name(name: &str) -> (safe: bool)
    ensures
        safe == safe_file_name(name@),
{
    let total = name.unicode_len();
    if total == 0 {
        return false;
    }
    if total == 1 && name.get_char(0) == '.' {
        assert(name@ =~= seq!['.']);
        return false;
    }
    if total == 2 && name.get_char(0) == '.' && name.get_char(1) == '.' {
        assert(name@ =~= seq!['.', '.']);
        return false;
    }
    assert(name@ != seq!['.'] && name@ != seq!['.', '.']) by {
        if name@ == seq!['.'] {
            assert(seq!['.'].len() == 1 && seq!['.'][0] == '.');
        }
        if name@ == seq!['.', '.'] {
            assert(seq!['.', '.'].len() == 2 && seq!['.', '.'][0] == '.' && seq!['.', '.'][1]
                == '.');
        }
    }
    for c in it: name.chars()
        invariant
            it.seq() == name@,
            !name@.take(it.index()).contains('/'),
    {
        if c == '/' {
            assert(name@[it.index()] == '/');
            return false;
        }
        proof {
            let now = name@.take(it.index() + 1);
            if now.contains('/') {
                let i = choose|i: int| 0 <= i < now.len() && now[i] == '/';
                if i < it.index() {
                    assert(name@.take(it.index())[i] == '/');
                }
            }
        }
    }
    assert(name@.take(name@.len() as int) =~= name@);
    true
}

impl Comic {
    /// The path of this record's image file in the directory `dir`.
    pub fn image_path_in(&self, dir: &str) -> (path: String)
        ensures
            path@ == image_path(dir@, self.img@),
    {
        let mut path = String::from_str(dir);
        path.append("/");
        path.append(segment_of(self.img.as_str()));
        path
    }

    /// The path of this record's image file in the image directory.
    pub fn get_image_path(&self) -> (path: String)
        ensures
            path@ == image_path(IMAGE_DIR@, self.img@),
    {
        self.image_path_in(IMAGE_DIR)
    }
}

/// What the mirror does about one record.
#[derive(Clone, Debug, PartialEq, Eq)]
pub enum ImageAction {
    /// The image is there: nothing is requested and nothing is written.
    Skip,
    /// Request `url` and write what comes to a new file at `path`.
    Download { url: String, path: String },
    /// Stop: the image cannot be written.
    Abort(ErrorKind),
}

/// The mathematical value of an [`ImageAction`].
pub enum ImageActionView {
    Skip,
    Download { url: Seq<char>, path: Seq<char> },
    Abort(ErrorKind),
}

impl View for ImageAction {
    type V = ImageActionView;

    open spec fn view(&self) -> ImageActionView {
        match self {
            ImageAction::Skip => ImageActionView::Skip,
            ImageAction::Download { url, path } => ImageActionView::Download {
                url: url@,
                path: path@,
            },
            ImageAction::Abort(error) => ImageActionView::Abort(*error),
        }
    }
}

/// What the mirror does about `comic`, whose image file in `dir` exists or
/// does not: an image that is there is left alone, one that is missing is
/// downloaded from the record's image address, and a record whose address
/// gives no safe file name fails the mirror rather than reach outside `dir`.
pub open spec fn image_action(comic: ComicView, dir: Seq<char>, exists: bool) -> ImageActionView {
    if exists {
        ImageActionView::Skip
    } else if safe_file_name(final_segment(comic.img)) {
        ImageActionView::Download { url: comic.img, path: image_path(dir, comic.img) }
    } else {
        ImageActionView::Abort(ErrorKind::ImageWriteFailure)
    }
}

/// Decides what to do about the image of `comic`, given whether the file at
/// its path in `dir` exists.
pub fn ensure_image(comic: &Comic, dir: &str, exists: bool) -> (action: ImageAction)
    ensures
        action@ == image_action(comic@, dir@, exists),
        exists ==> action == ImageAction::Skip,
{
    if exists {
        ImageAction::Skip
    } else if is_safe_file_name(segment_of(comic.img.as_str())) {
        ImageAction::Download { url: comic.img.clone(), path: comic.image_path_in(dir) }
    } else {
        ImageAction::Abort(ErrorKind::ImageWriteFailure)
    }
}

} // verus!
