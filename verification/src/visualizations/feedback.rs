//! Double-buffered pixel canvas for feedback effects, where each frame is
//! built from a transformed copy of the previous one.
use vstd::prelude::*;
use crate::visualizations::render::{lemma_grid_index, lemma_grid_index_injective};

verus! {

/// Two pixel buffers at half-block resolution (`cols` x `rows * 2`): the
/// front buffer holds the previous frame and is read, the back buffer holds
/// the frame being built and is written. Pixels outside the canvas read as
/// the blank pixel the canvas was made with.
pub struct FeedbackCanvas<P> {
    width: usize,
    height: usize,
    blank: P,
    front: Vec<P>,
    back: Vec<P>,
}

/// `n` copies of `blank`.
fn filled<P: Copy>(n: usize, blank: P) -> (v: Vec<P>)
    ensures
        v@.len() == n,
        forall|i: int| 0 <= i < n ==> v@[i] == blank,
{
    let mut v: Vec<P> = Vec::with_capacity(n);
    while v.len() < n
        invariant
            v@.len() <= n,
            forall|i: int| 0 <= i < v@.len() ==> v@[i] == blank,
        decreases n - v@.len(),
    {
        v.push(blank);
    }
    v
}

impl<P: Copy> FeedbackCanvas<P> {
    pub closed spec fn spec_width(&self) -> nat {
        self.width as nat
    }

    pub closed spec fn spec_height(&self) -> nat {
        self.height as nat
    }

    /// The pixel that stands for "nothing drawn".
    pub closed spec fn spec_blank(&self) -> P {
        self.blank
    }

    /// Both buffers cover exactly the canvas.
    pub closed spec fn wf(&self) -> bool {
        &&& self.front@.len() == self.width * self.height
        &&& self.back@.len() == self.width * self.height
    }

    /// Pixel (`x`, `y`) of the back buffer; the blank pixel outside.
    pub closed spec fn back_at(&self, x: int, y: int) -> P {
        if 0 <= x < self.width && 0 <= y < self.height {
            self.back@[y * self.width + x]
        } else {
            self.blank
        }
    }

    /// Pixel (`x`, `y`) of the front buffer; the blank pixel outside.
    pub closed spec fn front_at(&self, x: int, y: int) -> P {
        if 0 <= x < self.width && 0 <= y < self.height {
            self.front@[y * self.width + x]
        } else {
            self.blank
        }
    }

    /// Every pixel of both buffers is blank.
    pub open spec fn is_blank(&self) -> bool {
        &&& forall|x: int, y: int| #[trigger] self.back_at(x, y) == self.spec_blank()
        &&& forall|x: int, y: int| #[trigger] self.front_at(x, y) == self.spec_blank()
    }

    proof fn lemma_filled_is_blank(&self)
        requires
            self.wf(),
            forall|i: int| 0 <= i < self.back@.len() ==> self.back@[i] == self.blank,
            forall|i: int| 0 <= i < self.front@.len() ==> self.front@[i] == self.blank,
        ensures
            self.is_blank(),
    {
        assert forall|x: int, y: int| #[trigger] self.back_at(x, y) == self.spec_blank() by {
            if 0 <= x < self.width && 0 <= y < self.height {
                lemma_grid_index(x, y, self.width as int, self.height as int);
            }
        }
        assert forall|x: int, y: int| #[trigger] self.front_at(x, y) == self.spec_blank() by {
            if 0 <= x < self.width && 0 <= y < self.height {
                lemma_grid_index(x, y, self.width as int, self.height as int);
            }
        }
    }

    /// Creates a canvas of `cols` x `rows` terminal cells (`rows * 2` pixel
    /// rows) with both buffers blank.
    pub fn new(cols: u16, rows: u16, blank: P) -> (canvas: Self)
        requires
            (cols as int) * (rows as int) * 2 <= usize::MAX,
        ensures
            canvas.wf(),
            canvas.spec_width() == cols,
            canvas.spec_height() == rows * 2,
            canvas.spec_blank() == blank,
            canvas.is_blank(),
    {
        let width = cols as usize;
        let height = rows as usize * 2;
        assert(width * height == (cols as int) * (rows as int) * 2) by (nonlinear_arith)
            requires
                width == cols,
                height == rows * 2,
        ;
        let size = width * height;
        let canvas = FeedbackCanvas {
            width,
            height,
            blank,
            front: filled(size, blank),
            back: filled(size, blank),
        };
        proof {
            canvas.lemma_filled_is_blank();
        }
        canvas
    }

    /// Width of the canvas in pixels.
    pub fn pixel_width(&self) -> (w: usize)
        ensures
            w == self.spec_width(),
    {
        self.width
    }

    /// Height of the canvas in pixels.
    pub fn pixel_height(&self) -> (h: usize)
        ensures
            h == self.spec_height(),
    {
        self.height
    }

    /// Reallocates both buffers, blank, when the size in cells changes; with
    /// the same size both buffers are kept as they are, so trails persist.
    pub fn resize(&mut self, cols: u16, rows: u16)
        requires
            old(self).wf(),
            (cols as int) * (rows as int) * 2 <= usize::MAX,
        ensures
            final(self).wf(),
            final(self).spec_width() == cols,
            final(self).spec_height() == rows * 2,
            final(self).spec_blank() == old(self).spec_blank(),
            old(self).spec_width() == cols && old(self).spec_height() == rows * 2 ==> *final(self)
                == *old(self),
            !(old(self).spec_width() == cols && old(self).spec_height() == rows * 2)
                ==> final(self).is_blank(),
    {
        let width = cols as usize;
        let height = rows as usize * 2;
        if width != self.width || height != self.height {
            assert(width * height == (cols as int) * (rows as int) * 2) by (nonlinear_arith)
                requires
                    width == cols,
                    height == rows * 2,
            ;
            let size = width * height;
            self.width = width;
            self.height = height;
            self.front = filled(size, self.blank);
            self.back = filled(size, self.blank);
            proof {
                self.lemma_filled_is_blank();
            }
        }
    }

    /// Index of pixel (`x`, `y`) in the buffers, `None` outside the canvas.
    fn idx(&self, x: usize, y: usize) -> (i: Option<usize>)
        requires
            self.wf(),
        ensures
            match i {
                Some(i) => x < self.width && y < self.height && i == y * self.width + x && i
                    < self.back@.len(),
                None => !(x < self.width && y < self.height),
            },
    {
        if x < self.width && y < self.height {
            proof {
                lemma_grid_index(x as int, y as int, self.width as int, self.height as int);
                assert(self.back@.len() == self.back.len());
            }
            Some(y * self.width + x)
        } else {
            None
        }
    }

    /// Writes pixel (`x`, `y`) of the back buffer; a pixel outside the
    /// canvas is ignored.
    pub fn set_back(&mut self, x: usize, y: usize, color: P)
        requires
            old(self).wf(),
        ensures
            final(self).wf(),
            final(self).spec_width() == old(self).spec_width(),
            final(self).spec_height() == old(self).spec_height(),
            final(self).spec_blank() == old(self).spec_blank(),
            forall|px: int, py: int| #[trigger]
                final(self).front_at(px, py) == old(self).front_at(px, py),
            forall|px: int, py: int|
                #[trigger] final(self).back_at(px, py) == if px == x && py == y && x
                    < old(self).spec_width() && y < old(self).spec_height() {
                    color
                } else {
                    old(self).back_at(px, py)
                },
    {
        if let Some(i) = self.idx(x, y) {
            self.back.set(i, color);
            proof {
                let w = self.width as int;
                let h = self.height as int;
                assert forall|px: int, py: int|
                    #[trigger] self.back_at(px, py) == if px == x && py == y {
                        color
                    } else {
                        old(self).back_at(px, py)
                    } by {
                    if 0 <= px < w && 0 <= py < h {
                        lemma_grid_index(px, py, w, h);
                        if py * w + px == y * w + x {
                            lemma_grid_index_injective(px, py, x as int, y as int, w);
                        }
                    }
                }
            }
        }
    }

    /// Pixel (`x`, `y`) of the back buffer; the blank pixel outside.
    pub fn get_back(&self, x: usize, y: usize) -> (c: P)
        requires
            self.wf(),
        ensures
            c == self.back_at(x as int, y as int),
    {
        match self.idx(x, y) {
            Some(i) => self.back[i],
            None => self.blank,
        }
    }

    /// Pixel (`x`, `y`) of the front buffer; the blank pixel outside.
    pub fn get_front(&self, x: usize, y: usize) -> (c: P)
        requires
            self.wf(),
        ensures
            c == self.front_at(x as int, y as int),
    {
        match self.idx(x, y) {
            Some(i) => self.front[i],
            None => self.blank,
        }
    }
}

} // verus!
