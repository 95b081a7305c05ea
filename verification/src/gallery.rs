//! Galleries: the media of one folder tree with their total size, and the
//! media that stand for a gallery in a gallery list.
use vstd::prelude::*;
use crate::media_item::MediaItem;
use crate::text::{append_chars, push_digits, str_chars, string_from_chars};
use crate::util::{human_readable_size, human_size_text};

verus! {

/// A gallery: its number, name, total size in bytes and media items.
#[derive(Clone, Debug)]
pub struct Gallery {
    pub id: u32,
    pub name: String,
    pub size: u64,
    pub medias: Vec<MediaItem>,
}

/// A gallery as a gallery list shows it: its number, name, total size,
/// number of media items and the numbers of four media items.
#[derive(Clone, Debug)]
pub struct GalleryInfo {
    pub id: u32,
    pub name: String,
    pub size: u64,
    pub media_amount: u32,
    pub tbnl_media_ids: Vec<u32>,
}

impl Gallery {
    /// The gallery with the given fields.
    pub fn new(id: u32, name: String, size: u64, medias: Vec<MediaItem>) -> (r: Self)
        ensures
            r.id == id,
            r.name == name,
            r.size == size,
            r.medias == medias,
    {
        Self { id, name, size, medias }
    }

    /// The gallery as a line of text: `[<id>] <name> <count>x <size>`, the
    /// size as `human_readable_size` writes it.
    pub fn to_display_string(&self) -> (r: String)
        ensures
            r@ == seq!['['] + crate::text::decimal(self.id as nat) + seq![']', ' '] + self.name@
                + seq![' '] + crate::text::decimal(self.medias@.len()) + seq!['x', ' ']
                + human_size_text(self.size as nat),
    {
        let mut out: Vec<char> = vec!['['];
        push_digits(&mut out, self.id as u64, 10);
        out.push(']');
        out.push(' ');
        let name = str_chars(self.name.as_str());
        append_chars(&mut out, name.as_slice());
        out.push(' ');
        push_digits(&mut out, self.medias.len() as u64, 10);
        out.push('x');
        out.push(' ');
        let size = human_readable_size(self.size);
        let size_chars = str_chars(size.as_str());
        append_chars(&mut out, size_chars.as_slice());
        string_from_chars(out.as_slice())
    }
}

/// The ids padded to four by repeating the last one, where there are fewer
/// than four.
pub open spec fn padded_ids(ids: Seq<u32>) -> Seq<u32> {
    if ids.len() < 4 {
        ids + Seq::new((4 - ids.len()) as nat, |i: int| ids.last())
    } else {
        ids
    }
}

/// The media ids that stand for a gallery: with `n` ids, padded to four by
/// repeating the last one, every id equal to the first, the last (the
/// `n-1`-th), the `n/3`-th or the `2n/3`-th one, in order; none for no ids.
pub open spec fn tbnl_ids(ids: Seq<u32>) -> Seq<u32> {
    let n = ids.len() as int;
    if n == 0 {
        Seq::empty()
    } else {
        let ext = padded_ids(ids);
        ext.filter(
            |x: u32| x == ext[0] || x == ext[n - 1] || x == ext[n / 3] || x == ext[2 * n / 3],
        )
    }
}

impl GalleryInfo {
    /// The media ids that stand for a gallery with media ids `media_ids`
    /// (see `tbnl_ids`).
    pub fn get_tbnl_media_ids(media_ids: &Vec<u32>) -> (r: Vec<u32>)
        ensures
            r@ == tbnl_ids(media_ids@),
    {
        let len = media_ids.len();
        if len == 0 {
            return Vec::new();
        }
        let mut ext: Vec<u32> = Vec::new();
        let mut i: usize = 0;
        while i < len
            invariant
                i <= len,
                len == media_ids@.len(),
                ext@ =~= media_ids@.take(i as int),
            decreases len - i,
        {
            ext.push(media_ids[i]);
            i = i + 1;
        }
        let last = media_ids[len - 1];
        while ext.len() < 4
            invariant
                len == media_ids@.len(),
                len >= 1,
                last == media_ids@.last(),
                ext@.len() >= len,
                ext@.take(len as int) =~= media_ids@,
                forall|j: int| len <= j < ext@.len() ==> ext@[j] == last,
                ext@.len() <= 4 || ext@.len() == len,
            decreases 4 - ext@.len(),
        {
            ext.push(last);
        }
        assert(ext@ =~= padded_ids(media_ids@));
        let third = len / 3;
        let two_thirds = third * 2 + (len % 3) * 2 / 3;
        assert(two_thirds == 2 * len / 3);
        let a = ext[0];
        let b = ext[len - 1];
        let c = ext[third];
        let d = ext[two_thirds];
        let ghost keep = |x: u32| x == a || x == b || x == c || x == d;
        let mut out: Vec<u32> = Vec::new();
        let mut k: usize = 0;
        while k < ext.len()
            invariant
                k <= ext@.len(),
                out@ == ext@.take(k as int).filter(keep),
                keep == (|x: u32| x == a || x == b || x == c || x == d),
            decreases ext@.len() - k,
        {
            let x = ext[k];
            if x == a || x == b || x == c || x == d {
                out.push(x);
            }
            k = k + 1;
            assert(ext@.take(k as int).drop_last() =~= ext@.take(k - 1));
            reveal_with_fuel(Seq::filter, 1);
        }
        assert(ext@.take(ext@.len() as int) =~= ext@);
        let ghost e = padded_ids(media_ids@);
        let ghost n = len as int;
        assert(a == e[0] && b == e[n - 1] && c == e[n / 3] && d == e[2 * n / 3]);
        assert(keep =~= (|x: u32| x == e[0] || x == e[n - 1] || x == e[n / 3] || x == e[2 * n
            / 3]));
        assert(tbnl_ids(media_ids@) == ext@.filter(keep));
        out
    }
}

} // verus!
