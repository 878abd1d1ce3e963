//! ICO icons: an ordered collection of images and the ordering policy
//! applied before encoding.

use vstd::prelude::*;

use crate::error::Error;
use crate::image::{Image, ImageModel};
use crate::serialize::{encode_spec, serialize_ico, views};

verus! {

/// An ICO icon.
pub struct Icon {
    /// The entries.
    images: Vec<Image>,
}

impl View for Icon {
    type V = Seq<ImageModel>;

    closed spec fn view(&self) -> Seq<ImageModel> {
        views(self.images@)
    }
}

impl Icon {
    /// Creates a new icon from its entries.
    pub fn new(images: Vec<Image>) -> (r: Self)
        ensures
            r@ == views(images@),
    {
        Icon { images }
    }

    /// Encodes the icon to ICO data.
    pub fn encode(&self) -> (r: Result<Vec<u8>, Error>)
        ensures
            match r {
                Ok(data) => encode_spec(self@) == Ok::<Seq<u8>, Error>(data@),
                Err(e) => encode_spec(self@) == Err::<Seq<u8>, Error>(e),
            },
    {
        serialize_ico(&self.images)
    }
}

/// The resolution of an image: its pixel count.
pub open spec fn spec_resolution(image: Image) -> int {
    image.width * image.height
}

/// `x` inserted into `s` just before the run of strictly
/// smaller-resolution images at the end of `s`: images of equal resolution
/// keep their places ahead of `x`.
pub open spec fn insert_by_resolution(s: Seq<Image>, x: Image) -> Seq<Image>
    decreases s.len(),
{
    if s.len() == 0 {
        seq![x]
    } else if spec_resolution(s.last()) < spec_resolution(x) {
        insert_by_resolution(s.drop_last(), x).push(s.last())
    } else {
        s.push(x)
    }
}

/// The images of `s` stably ordered by descending resolution: each image
/// in turn is inserted behind every earlier image of at least its
/// resolution.
pub open spec fn sort_by_resolution_spec(s: Seq<Image>) -> Seq<Image>
    decreases s.len(),
{
    if s.len() == 0 {
        Seq::empty()
    } else {
        insert_by_resolution(sort_by_resolution_spec(s.drop_last()), s.last())
    }
}

/// Whether the images of `s` are ordered by descending resolution.
pub open spec fn sorted_by_resolution(s: Seq<Image>) -> bool {
    forall|i: int, j: int|
        0 <= i < j < s.len() ==> spec_resolution(s[i]) >= spec_resolution(s[j])
}

/// Stably sorts images by descending resolution: a higher pixel count
/// comes first, and images of equal pixel count keep their relative order.
pub fn sort_by_resolution(images: &mut Vec<Image>)
    ensures
        final(images)@ == sort_by_resolution_spec(old(images)@),
{
    let ghost orig = old(images)@;
    let n = images.len();
    if n <= 1 {
        proof {
            if orig.len() == 1 {
                assert(sort_by_resolution_spec(orig.drop_last()) == Seq::<Image>::empty());
                assert(sort_by_resolution_spec(orig) =~= orig);
            } else {
                assert(sort_by_resolution_spec(orig) =~= orig);
            }
        }
        return ;
    }

    proof {
        assert(orig.subrange(0, 1).drop_last() =~= Seq::<Image>::empty());
        assert(sort_by_resolution_spec(Seq::<Image>::empty()) == Seq::<Image>::empty());
        assert(sort_by_resolution_spec(orig.subrange(0, 1)) =~= orig.subrange(0, 1));
        assert(images@.subrange(0, 1) =~= orig.subrange(0, 1));
    }
    let mut i: usize = 1;
    while i < n
        invariant
            1 <= i <= n,
            n == images.len(),
            images@.len() == orig.len() == n,
            images@.subrange(0, i as int) == sort_by_resolution_spec(orig.subrange(0, i as int)),
            images@.subrange(i as int, n as int) == orig.subrange(i as int, n as int),
        decreases n - i,
    {
        let ghost before = images@;
        let x = images.remove(i);
        proof {
            assert forall|k: int| i <= k < n implies before[k] == orig[k] by {
                assert(before.subrange(i as int, n as int)[k - i] == before[k]);
                assert(orig.subrange(i as int, n as int)[k - i] == orig[k]);
            }
            assert(x == orig[i as int]);
            assert(images@.subrange(0, i as int) =~= before.subrange(0, i as int));
            assert forall|k: int| i <= k < n - 1 implies images@[k] == orig[k + 1] by {
                assert(images@[k] == before.subrange(i + 1, n as int)[k - i]);
            }
            assert(images@.subrange(i as int, (n - 1) as int) =~= orig.subrange(
                i + 1,
                n as int,
            ));
        }

        let mut j: usize = i;
        while j > 0 && images[j - 1].resolution() < x.resolution()
            invariant
                0 <= j <= i < n,
                n == images@.len() + 1,
                images@ == before.remove(i as int),
                images@.subrange(0, i as int) == sort_by_resolution_spec(
                    orig.subrange(0, i as int),
                ),
                forall|k: int|
                    j <= k < i ==> spec_resolution(#[trigger] images@[k]) < spec_resolution(x),
            decreases j,
        {
            j = j - 1;
        }

        proof {
            let sorted_prefix = images@.subrange(0, i as int);
            assert(forall|k: int|
                j <= k < sorted_prefix.len() ==> spec_resolution(#[trigger] sorted_prefix[k])
                    < spec_resolution(x));
            lemma_insert_by_resolution_at(sorted_prefix, x, j as int);
            assert(orig.subrange(0, i + 1).drop_last() =~= orig.subrange(0, i as int));
            assert(orig.subrange(0, i + 1).last() == orig[i as int]);
        }
        images.insert(j, x);
        proof {
            assert(images@.subrange(0, i + 1) =~= insert_by_resolution(
                before.subrange(0, i as int),
                x,
            ));
            assert(images@.subrange(0, i + 1) == sort_by_resolution_spec(
                orig.subrange(0, i + 1),
            ));
            assert(images@.subrange(i + 1, n as int) =~= orig.subrange(i + 1, n as int));
        }
        i = i + 1;
    }

    proof {
        assert(images@.subrange(0, n as int) =~= images@);
        assert(orig.subrange(0, n as int) =~= orig);
    }
}

/// Inserting into a sequence at the boundary position
/// `j` — every image from `j` on is strictly smaller, and the image just
/// before `j` (if any) is at least as large — places the new image exactly
/// at `j`.
proof fn lemma_insert_by_resolution_at(s: Seq<Image>, x: Image, j: int)
    requires
        0 <= j <= s.len(),
        forall|k: int| j <= k < s.len() ==> spec_resolution(#[trigger] s[k]) < spec_resolution(x),
        j > 0 ==> spec_resolution(s[j - 1]) >= spec_resolution(x),
    ensures
        insert_by_resolution(s, x) == s.subrange(0, j).push(x) + s.subrange(j, s.len() as int),
    decreases s.len(),
{
    if s.len() == 0 {
        assert(insert_by_resolution(s, x) =~= s.subrange(0, j).push(x) + s.subrange(
            j,
            s.len() as int,
        ));
    } else if j == s.len() {
        assert(insert_by_resolution(s, x) == s.push(x));
        assert(s.push(x) =~= s.subrange(0, j).push(x) + s.subrange(j, s.len() as int));
    } else {
        assert(spec_resolution(s.last()) < spec_resolution(x));
        let s1 = s.drop_last();
        assert(forall|k: int|
            j <= k < s1.len() ==> spec_resolution(#[trigger] s1[k]) < spec_resolution(x));
        lemma_insert_by_resolution_at(s1, x, j);
        assert(s1.subrange(0, j) =~= s.subrange(0, j));
        assert(insert_by_resolution(s, x) == insert_by_resolution(s1, x).push(s.last()));
        assert((s.subrange(0, j).push(x) + s1.subrange(j, s1.len() as int)).push(s.last())
            =~= s.subrange(0, j).push(x) + s.subrange(j, s.len() as int));
    }
}

/// The images of `s` whose resolution is exactly `r`, in order.
pub open spec fn images_with_resolution(s: Seq<Image>, r: int) -> Seq<Image> {
    s.filter(|image: Image| spec_resolution(image) == r)
}

/// Law: the sort is stable — for every resolution, the images of that
/// resolution come out of the sort in exactly the order they went in.
pub proof fn lemma_sort_by_resolution_stable(s: Seq<Image>, r: int)
    ensures
        images_with_resolution(sort_by_resolution_spec(s), r) == images_with_resolution(s, r),
    decreases s.len(),
{
    broadcast use Seq::lemma_filter_push;

    if s.len() > 0 {
        lemma_sort_by_resolution_stable(s.drop_last(), r);
        lemma_insert_filter(sort_by_resolution_spec(s.drop_last()), s.last(), r);
        assert(s.drop_last().push(s.last()) =~= s);
    }
}

/// Law: the sort permutes its input — every image appears in the output
/// exactly as often as in the input.
pub proof fn lemma_sort_by_resolution_permutes(s: Seq<Image>)
    ensures
        sort_by_resolution_spec(s).to_multiset() == s.to_multiset(),
    decreases s.len(),
{
    broadcast use vstd::seq_lib::group_to_multiset_ensures;

    if s.len() > 0 {
        lemma_sort_by_resolution_permutes(s.drop_last());
        lemma_insert_multiset(sort_by_resolution_spec(s.drop_last()), s.last());
        assert(s.drop_last().push(s.last()) =~= s);
    }
}

/// Inserting `x` adds exactly one occurrence of `x` to the contents.
proof fn lemma_insert_multiset(s: Seq<Image>, x: Image)
    ensures
        insert_by_resolution(s, x).to_multiset() == s.to_multiset().insert(x),
    decreases s.len(),
{
    broadcast use vstd::seq_lib::group_to_multiset_ensures;

    if s.len() == 0 {
        assert(insert_by_resolution(s, x) =~= s.push(x));
    } else if spec_resolution(s.last()) < spec_resolution(x) {
        let s1 = s.drop_last();
        lemma_insert_multiset(s1, x);
        assert(s1.push(s.last()) =~= s);
        assert(s1.to_multiset().insert(x).insert(s.last()) =~= s1.to_multiset().insert(
            s.last(),
        ).insert(x));
    } else {
        assert(insert_by_resolution(s, x) == s.push(x));
    }
}

/// Filtering by one resolution commutes with inserting: the inserted
/// image lands at the end of its own resolution class and leaves every
/// other class unchanged.
proof fn lemma_insert_filter(s: Seq<Image>, x: Image, r: int)
    ensures
        images_with_resolution(insert_by_resolution(s, x), r) == if spec_resolution(x) == r {
            images_with_resolution(s, r).push(x)
        } else {
            images_with_resolution(s, r)
        },
    decreases s.len(),
{
    broadcast use Seq::lemma_filter_push;

    let pred = |image: Image| spec_resolution(image) == r;
    if s.len() == 0 {
        assert(insert_by_resolution(s, x) =~= s.push(x));
        assert(s.push(x).filter(pred) == if pred(x) {
            s.filter(pred).push(x)
        } else {
            s.filter(pred)
        });
    } else if spec_resolution(s.last()) < spec_resolution(x) {
        let s1 = s.drop_last();
        lemma_insert_filter(s1, x, r);
        assert(s1.push(s.last()) =~= s);
        let t = insert_by_resolution(s1, x);
        assert(insert_by_resolution(s, x) == t.push(s.last()));
        // The image walked past is strictly smaller than `x`, so at most
        // one of the two is in the class `r`.
        if spec_resolution(x) == r {
            assert(!pred(s.last()));
            assert(t.push(s.last()).filter(pred) == t.filter(pred));
            assert(s.filter(pred) == s1.filter(pred));
        } else {
            if pred(s.last()) {
                assert(t.push(s.last()).filter(pred) == t.filter(pred).push(s.last()));
                assert(s.filter(pred) == s1.filter(pred).push(s.last()));
            } else {
                assert(t.push(s.last()).filter(pred) == t.filter(pred));
                assert(s.filter(pred) == s1.filter(pred));
            }
        }
    } else {
        assert(insert_by_resolution(s, x) == s.push(x));
        assert(s.push(x).filter(pred) == if pred(x) {
            s.filter(pred).push(x)
        } else {
            s.filter(pred)
        });
    }
}

/// Law: the stable sort orders images by descending resolution.
pub proof fn lemma_sort_by_resolution_sorted(s: Seq<Image>)
    ensures
        sorted_by_resolution(sort_by_resolution_spec(s)),
    decreases s.len(),
{
    if s.len() > 0 {
        lemma_sort_by_resolution_sorted(s.drop_last());
        lemma_insert_sorted(sort_by_resolution_spec(s.drop_last()), s.last());
    }
}

/// Inserting keeps a descending-sorted sequence sorted.
proof fn lemma_insert_sorted(s: Seq<Image>, x: Image)
    requires
        sorted_by_resolution(s),
    ensures
        sorted_by_resolution(insert_by_resolution(s, x)),
        insert_by_resolution(s, x).len() == s.len() + 1,
        forall|m: int|
            0 <= m < insert_by_resolution(s, x).len() ==> (exists|k: int|
                0 <= k < s.len() && insert_by_resolution(s, x)[m] == s[k]) || insert_by_resolution(
                s,
                x,
            )[m] == x,
    decreases s.len(),
{
    if s.len() == 0 {
    } else if spec_resolution(s.last()) < spec_resolution(x) {
        let s1 = s.drop_last();
        assert(sorted_by_resolution(s1)) by {
            assert(forall|k: int| 0 <= k < s1.len() ==> s1[k] == s[k]);
        }
        lemma_insert_sorted(s1, x);
        let t = insert_by_resolution(s1, x);
        let u = t.push(s.last());
        assert(insert_by_resolution(s, x) == u);
        // Every image already placed is at least as large as the one pushed
        // at the end.
        assert forall|m: int| 0 <= m < t.len() implies spec_resolution(t[m]) >= spec_resolution(
            s.last(),
        ) by {
            if (exists|k: int| 0 <= k < s1.len() && t[m] == s1[k]) {
                let k = choose|k: int| 0 <= k < s1.len() && t[m] == s1[k];
                assert(spec_resolution(s[k]) >= spec_resolution(s.last()));
            } else {
                assert(t[m] == x);
            }
        }
        assert(sorted_by_resolution(u)) by {
            assert(forall|m: int| 0 <= m < t.len() ==> u[m] == t[m]);
            assert(u.last() == s.last());
        }
        assert forall|m: int| 0 <= m < u.len() implies (exists|k: int|
            0 <= k < s.len() && u[m] == s[k]) || u[m] == x by {
            if m < t.len() {
                if (exists|k: int| 0 <= k < s1.len() && t[m] == s1[k]) {
                    let k = choose|k: int| 0 <= k < s1.len() && t[m] == s1[k];
                    assert(u[m] == s[k]);
                }
            } else {
                assert(u[m] == s[s.len() - 1]);
            }
        }
    } else {
        assert(insert_by_resolution(s, x) == s.push(x));
        assert forall|i: int, j: int| 0 <= i < j < s.push(x).len() implies spec_resolution(
            s.push(x)[i],
        ) >= spec_resolution(s.push(x)[j]) by {
            if j < s.len() {
            } else {
                assert(s.push(x)[j] == x);
                if i < s.len() - 1 {
                    assert(spec_resolution(s[i]) >= spec_resolution(s.last()));
                }
                assert(spec_resolution(s.last()) >= spec_resolution(x));
            }
        }
    }
}

} // verus!
