//! The viewer's state apart from the screen: the folder's images, which one is
//! shown, its decoded frames and rotation, the thumbnail strip, and the status
//! line. The screen (textures, zoom and pan, timing) is driven from outside
//! and is told what changed.
use vstd::prelude::*;
use vstd::string::StringExecFns;
use crate::anim::{AnimFrame, Loaded, note_view};
use crate::paths::{file_name_string, file_name_text, is_jpeg, is_jpeg_ext, spec_ext_of};
use crate::picture::{
    Picture, fit_for_texture, normalize_angle, rotate_image, spec_normalize_angle, swaps_sides,
    texture_side, spec_texture_side, exceeds_side, turned_width, turned_height, turned_image,
    texture_fit, fills_square,
};
use crate::text::{decimal, push_decimal};
use vstd::arithmetic::div_mod::{
    lemma_fundamental_div_mod, lemma_mod_add_multiples_vanish, lemma_mod_multiples_vanish,
    lemma_mod_self_0, lemma_small_mod,
};

verus! {

/// What the thumbnail strip knows about one image.
pub enum ThumbState<T> {
    /// Still being decoded.
    Loading,
    /// Decoded; holds what the strip draws.
    Ready(T),
    /// Tried, and the file cannot be decoded.
    Failed,
}

/// The result of asking to show an image.
pub enum Shown {
    /// The index was out of range (or there are no images): nothing changed.
    Ignored,
    /// The file could not be decoded: the view was cleared.
    Failed,
    /// The image is now shown from its first frame, unrotated.
    Loaded,
}

/// The result of asking to save the rotation.
pub enum SavePlan {
    /// Nothing is to be written; the status line says why.
    Nothing,
    /// The rotated picture is to be written over the current file.
    Write,
}

/// Index of the image after `index` among `len`, wrapping to the first.
pub open spec fn spec_next_index(index: int, len: int) -> int {
    (index + 1) % len
}

/// Index of the image before `index` among `len`, wrapping to the last.
pub open spec fn spec_prev_index(index: int, len: int) -> int {
    (index + len - 1) % len
}

/// Whether the rotation of an image with this many frames, turned by `angle`,
/// can be saved: only a rotated still can.
pub open spec fn save_allowed(angle: int, frame_count: nat) -> bool {
    angle % 360 != 0 && frame_count == 1
}

/// The status line for a shown image: its file name, its place in the folder,
/// its frame count when animated, and the decoder's note when there is one.
pub open spec fn shown_status(
    path: Seq<char>,
    index: nat,
    count: nat,
    frame_count: nat,
    note: Option<Seq<char>>,
) -> Seq<char> {
    file_name_text(path) + "  ["@ + decimal(index + 1) + "/"@ + decimal(count) + "]"@ + (if frame_count
        > 1 {
        "  \u{b7}  animated, "@ + decimal(frame_count) + " frames"@
    } else {
        ""@
    }) + match note {
        Some(n) => "  \u{b7}  \u{26a0} "@ + n,
        None => ""@,
    }
}

pub open spec fn failed_status(path: Seq<char>) -> Seq<char> {
    "Failed to open "@ + path
}

pub open spec fn empty_folder_status(dir: Seq<char>) -> Seq<char> {
    "No images in "@ + dir
}

pub open spec fn saved_status(path: Seq<char>) -> Seq<char> {
    "Saved rotation \u{2192} "@ + file_name_text(path) + (if is_jpeg_ext(spec_ext_of(path)) {
        "  (JPEG re-encoded, q95)"@
    } else {
        ""@
    })
}

pub open spec fn not_rotated_status() -> Seq<char> {
    "Nothing to save (image not rotated)"@
}

pub open spec fn animated_status() -> Seq<char> {
    "Save rotation isn't supported for animated images"@
}

pub open spec fn save_failed_status(err: Seq<char>) -> Seq<char> {
    "Save failed: "@ + err
}

/// The image viewer's state. `P` is what a path is held as; `T` is what the
/// thumbnail strip draws for a decoded thumbnail.
pub struct Viewer<P, T> {
    entries: Vec<(P, String)>,
    index: usize,
    frames: Vec<AnimFrame<Picture>>,
    cur_frame: usize,
    angle: i32,
    thumbs: Vec<ThumbState<T>>,
    status: String,
}

impl<P, T> Viewer<P, T> {
    /// The folder's images, each a path with its text.
    pub closed spec fn entries_view(&self) -> Seq<(P, String)> {
        self.entries@
    }

    /// The text of the path of image `i`.
    pub open spec fn path_text(&self, i: int) -> Seq<char> {
        self.entries_view()[i].1@
    }

    pub closed spec fn view_index(&self) -> nat {
        self.index as nat
    }

    pub closed spec fn frames_view(&self) -> Seq<AnimFrame<Picture>> {
        self.frames@
    }

    pub closed spec fn view_cur_frame(&self) -> nat {
        self.cur_frame as nat
    }

    /// The rotation in degrees, clockwise.
    pub closed spec fn view_angle(&self) -> int {
        self.angle as int
    }

    pub closed spec fn thumbs_view(&self) -> Seq<ThumbState<T>> {
        self.thumbs@
    }

    pub closed spec fn status_view(&self) -> Seq<char> {
        self.status@
    }

    /// The viewer's invariant: one thumbnail per image; an index in range
    /// whenever there are images and whenever frames are shown; a current frame
    /// in range; a rotation in `0..360` degrees.
    pub closed spec fn wf(&self) -> bool {
        &&& self.thumbs@.len() == self.entries@.len()
        &&& self.entries@.len() > 0 ==> self.index < self.entries@.len()
        &&& self.frames@.len() > 0 ==> self.index < self.entries@.len()
        &&& self.frames@.len() > 0 ==> self.cur_frame < self.frames@.len()
        &&& 0 <= self.angle < 360
    }

    /// What the invariant guarantees, for callers: one thumbnail per image; an
    /// index in range whenever there are images or frames; a current frame in
    /// range whenever there are frames; a rotation in `0..360` degrees.
    pub proof fn lemma_wf(&self)
        requires
            self.wf(),
        ensures
            self.thumbs_view().len() == self.entries_view().len(),
            self.entries_view().len() > 0 ==> self.view_index() < self.entries_view().len(),
            self.frames_view().len() > 0 ==> self.view_index() < self.entries_view().len(),
            self.frames_view().len() > 0 ==> self.view_cur_frame() < self.frames_view().len(),
            0 <= self.view_angle() < 360,
    {
    }

    /// Whether the rotation can be saved now.
    pub open spec fn can_save(&self) -> bool {
        save_allowed(self.view_angle(), self.frames_view().len())
    }

    /// A viewer with no folder open.
    pub fn new() -> (r: Self)
        ensures
            r.wf(),
            r.entries_view().len() == 0,
            r.frames_view().len() == 0,
            r.view_index() == 0,
            r.view_angle() == 0,
            r.view_cur_frame() == 0,
            r.thumbs_view().len() == 0,
            r.status_view().len() == 0,
    {
        Viewer {
            entries: Vec::new(),
            index: 0,
            frames: Vec::new(),
            cur_frame: 0,
            angle: 0,
            thumbs: Vec::new(),
            status: String::new(),
        }
    }

    pub fn entries(&self) -> (r: &Vec<(P, String)>)
        ensures
            r@ == self.entries_view(),
    {
        &self.entries
    }

    pub fn len(&self) -> (r: usize)
        ensures
            r == self.entries_view().len(),
    {
        self.entries.len()
    }

    pub fn index(&self) -> (r: usize)
        ensures
            r == self.view_index(),
    {
        self.index
    }

    pub fn frames(&self) -> (r: &Vec<AnimFrame<Picture>>)
        ensures
            r@ == self.frames_view(),
    {
        &self.frames
    }

    pub fn cur_frame(&self) -> (r: usize)
        ensures
            r == self.view_cur_frame(),
    {
        self.cur_frame
    }

    pub fn angle(&self) -> (r: i32)
        ensures
            r == self.view_angle(),
    {
        self.angle
    }

    pub fn thumbs(&self) -> (r: &Vec<ThumbState<T>>)
        ensures
            r@ == self.thumbs_view(),
    {
        &self.thumbs
    }

    pub fn status(&self) -> (r: &String)
        ensures
            r@ == self.status_view(),
    {
        &self.status
    }

    /// Opens a folder whose images, in display order, are `entries`, starting
    /// at `start`. Every thumbnail starts out loading. With no images the view
    /// is cleared and the status says the folder is empty, and `false` is
    /// returned; otherwise `start` becomes the index and `true` says the image
    /// there is to be shown.
    pub fn open_folder(&mut self, dir: &str, entries: Vec<(P, String)>, start: usize) -> (r: bool)
        requires
            old(self).wf(),
            entries@.len() > 0 ==> start < entries@.len(),
        ensures
            final(self).wf(),
            r == (entries@.len() > 0),
            final(self).entries_view() == entries@,
            final(self).thumbs_view().len() == entries@.len(),
            forall|i: int|
                0 <= i < entries@.len() ==> #[trigger] final(self).thumbs_view()[i] is Loading,
            r ==> final(self).view_index() == start,
            r ==> final(self).frames_view() == old(self).frames_view(),
            r ==> final(self).status_view() == old(self).status_view(),
            !r ==> final(self).frames_view().len() == 0,
            !r ==> final(self).status_view() == empty_folder_status(dir@),
            final(self).view_angle() == old(self).view_angle(),
    {
        let n = entries.len();
        let mut thumbs: Vec<ThumbState<T>> = Vec::new();
        let mut i: usize = 0;
        while i < n
            invariant
                i <= n,
                thumbs@.len() == i,
                forall|k: int| 0 <= k < i ==> #[trigger] thumbs@[k] is Loading,
            decreases n - i,
        {
            thumbs.push(ThumbState::Loading);
            i = i + 1;
        }
        self.thumbs = thumbs;
        self.entries = entries;
        if n == 0 {
            self.frames = Vec::new();
            let mut s = String::new();
            s.append("No images in ");
            s.append(dir);
            self.status = s;
            false
        } else {
            self.index = start;
            true
        }
    }

    /// Whether `index` names an image that can be shown.
    pub fn can_show(&self, index: usize) -> (r: bool)
        ensures
            r == (index < self.entries_view().len()),
    {
        self.entries.len() > 0 && index < self.entries.len()
    }

    /// The text of the path at `index`.
    pub fn path_at(&self, index: usize) -> (r: &str)
        requires
            index < self.entries_view().len(),
        ensures
            r@ == self.path_text(index as int),
    {
        self.entries[index].1.as_str()
    }

    /// Shows the image at `index`, given what decoding its file produced.
    /// Nothing decoded: the view is cleared (no frames, no rotation), so the
    /// picture shown before can never be saved over this file, and the status
    /// says which file failed. Otherwise its frames are shown from the first,
    /// unrotated, and the status names the file, its place in the folder, its
    /// frame count when animated, and the decoder's note.
    pub fn show_loaded(&mut self, index: usize, loaded: Loaded<Picture>) -> (r: Shown)
        requires
            old(self).wf(),
        ensures
            final(self).wf(),
            final(self).entries_view() == old(self).entries_view(),
            final(self).thumbs_view() == old(self).thumbs_view(),
            index >= old(self).entries_view().len() ==> r is Ignored && *final(self) == *old(self),
            index < old(self).entries_view().len() ==> final(self).view_index() == index,
            index < old(self).entries_view().len() && loaded.frames@.len() == 0 ==> {
                &&& r is Failed
                &&& final(self).frames_view().len() == 0
                &&& final(self).view_angle() == 0
                &&& !final(self).can_save()
                &&& final(self).status_view() == failed_status(old(self).path_text(index as int))
            },
            index < old(self).entries_view().len() && loaded.frames@.len() > 0 ==> {
                &&& r is Loaded
                &&& final(self).frames_view() == loaded.frames@
                &&& final(self).view_cur_frame() == 0
                &&& final(self).view_angle() == 0
                &&& final(self).status_view() == shown_status(
                    old(self).path_text(index as int),
                    index as nat,
                    old(self).entries_view().len(),
                    loaded.frames@.len(),
                    note_view(loaded.note),
                )
            },
    {
        if self.entries.len() == 0 || index >= self.entries.len() {
            return Shown::Ignored;
        }
        self.index = index;
        if loaded.frames.len() == 0 {
            self.frames = Vec::new();
            self.angle = 0;
            let mut s = String::new();
            s.append("Failed to open ");
            s.append(self.entries[index].1.as_str());
            self.status = s;
            return Shown::Failed;
        }
        proof {
            reveal_strlit("");
        }
        let count = loaded.frames.len();
        let n = self.entries.len();
        let mut s = file_name_string(self.entries[index].1.as_str());
        s.append("  [");
        push_decimal(&mut s, (index as u64) + 1);
        s.append("/");
        push_decimal(&mut s, n as u64);
        s.append("]");
        if count > 1 {
            s.append("  \u{b7}  animated, ");
            push_decimal(&mut s, count as u64);
            s.append(" frames");
        }
        if let Some(note) = &loaded.note {
            s.append("  \u{b7}  \u{26a0} ");
            s.append(note.as_str());
        }
        self.frames = loaded.frames;
        self.cur_frame = 0;
        self.angle = 0;
        self.status = s;
        Shown::Loaded
    }

    /// The bare file name of the current image (empty if none).
    pub fn cur_name(&self) -> (r: String)
        ensures
            self.view_index() < self.entries_view().len() ==> r@ == file_name_text(
                self.path_text(self.view_index() as int),
            ),
            self.view_index() >= self.entries_view().len() ==> r@.len() == 0,
    {
        if self.index < self.entries.len() {
            file_name_string(self.entries[self.index].1.as_str())
        } else {
            String::new()
        }
    }

    /// The index of the next image, wrapping past the last, if there are images.
    pub fn next_index(&self) -> (r: Option<usize>)
        requires
            self.wf(),
        ensures
            self.entries_view().len() == 0 ==> r is None,
            self.entries_view().len() > 0 ==> r == Some(
                spec_next_index(self.view_index() as int, self.entries_view().len() as int) as usize,
            ),
            r matches Some(i) ==> i < self.entries_view().len(),
    {
        if self.entries.len() == 0 {
            None
        } else {
            Some((self.index + 1) % self.entries.len())
        }
    }

    /// The index of the previous image, wrapping past the first, if there are
    /// images.
    pub fn prev_index(&self) -> (r: Option<usize>)
        requires
            self.wf(),
        ensures
            self.entries_view().len() == 0 ==> r is None,
            self.entries_view().len() > 0 ==> r == Some(
                spec_prev_index(self.view_index() as int, self.entries_view().len() as int) as usize,
            ),
            r matches Some(i) ==> i < self.entries_view().len(),
    {
        if self.entries.len() == 0 {
            None
        } else {
            let n = self.entries.len();
            if self.index == 0 {
                assert((self.index + n - 1) % (n as int) == n - 1) by {
                    lemma_small_mod((n - 1) as nat, n as nat);
                }
                Some(n - 1)
            } else {
                assert((self.index + n - 1) % (n as int) == self.index - 1) by {
                    lemma_mod_add_multiples_vanish(
                        (self.index - 1) as int,
                        n as int,
                    );
                    lemma_small_mod((self.index - 1) as nat, n as nat);
                }
                Some(self.index - 1)
            }
        }
    }

    /// Turns the shown image by `delta` degrees clockwise (negative:
    /// anticlockwise). Returns whether anything is shown, in which case the
    /// view is refitted to the turned image.
    pub fn rotate(&mut self, delta: i32) -> (r: bool)
        requires
            old(self).wf(),
            i32::MIN <= old(self).view_angle() + delta <= i32::MAX,
        ensures
            final(self).wf(),
            r == (old(self).frames_view().len() > 0),
            r ==> final(self).view_angle() == spec_normalize_angle(old(self).view_angle() + delta),
            !r ==> final(self).view_angle() == old(self).view_angle(),
            !r ==> *final(self) == *old(self),
            final(self).entries_view() == old(self).entries_view(),
            final(self).frames_view() == old(self).frames_view(),
            final(self).thumbs_view() == old(self).thumbs_view(),
            final(self).view_index() == old(self).view_index(),
            final(self).view_cur_frame() == old(self).view_cur_frame(),
            final(self).status_view() == old(self).status_view(),
    {
        if self.frames.len() > 0 {
            self.angle = normalize_angle(self.angle + delta);
            true
        } else {
            false
        }
    }

    /// Moves playback to the next frame, wrapping to the first.
    pub fn advance_frame(&mut self)
        requires
            old(self).wf(),
            old(self).frames_view().len() > 0,
        ensures
            final(self).wf(),
            final(self).view_cur_frame() == (old(self).view_cur_frame() + 1) % old(self).frames_view().len(),
            final(self).entries_view() == old(self).entries_view(),
            final(self).frames_view() == old(self).frames_view(),
            final(self).thumbs_view() == old(self).thumbs_view(),
            final(self).view_index() == old(self).view_index(),
            final(self).view_angle() == old(self).view_angle(),
            final(self).status_view() == old(self).status_view(),
    {
        let n = self.frames.len();
        assert(self.cur_frame < n);
        self.cur_frame = (self.cur_frame + 1) % n;
    }

    /// The index of the frame to put on screen: the current one, never past the last.
    pub open spec fn screen_frame(&self) -> int {
        if self.view_cur_frame() < self.frames_view().len() {
            self.view_cur_frame() as int
        } else {
            self.frames_view().len() - 1
        }
    }

    /// The frame to put on screen, if any: the current one, never past the last.
    pub fn current_frame_index(&self) -> (r: Option<usize>)
        ensures
            self.frames_view().len() == 0 ==> r is None,
            self.frames_view().len() > 0 ==> r == Some(
                if self.view_cur_frame() < self.frames_view().len() {
                    self.view_cur_frame() as usize
                } else {
                    (self.frames_view().len() - 1) as usize
                },
            ),
    {
        if self.frames.len() == 0 {
            None
        } else if self.cur_frame < self.frames.len() {
            Some(self.cur_frame)
        } else {
            Some(self.frames.len() - 1)
        }
    }

    /// The picture to upload as the texture: the current frame turned by the
    /// rotation and, when a side is over the GPU's maximum texture side, scaled
    /// down to fit. No side of it is ever over that limit.
    pub fn texture_picture(&self, max_texture_side: usize) -> (r: Option<Picture>)
        ensures
            self.frames_view().len() == 0 <==> r is None,
            r matches Some(p) ==> {
                let max = spec_texture_side(max_texture_side);
                let f = self.frames_view()[self.screen_frame()].image;
                let w = turned_width(f, self.view_angle());
                let h = turned_height(f, self.view_angle());
                &&& p.view_image() == texture_fit(turned_image(f.view_image(), self.view_angle()), max)
                &&& max >= 1 ==> p.view_width() <= max && p.view_height() <= max
                &&& !exceeds_side(w, h, max) ==> p.view_width() == w && p.view_height() == h
                &&& 1 <= max_texture_side <= u32::MAX && w <= max_texture_side && h
                    <= max_texture_side ==> p.view_image() == turned_image(
                    f.view_image(),
                    self.view_angle(),
                )
                &&& exceeds_side(w, h, max) && max >= 1 ==> fills_square(
                    w,
                    h,
                    max,
                    p.view_width(),
                    p.view_height(),
                )
            },
    {
        match self.current_frame_index() {
            None => None,
            Some(i) => {
                let turned = rotate_image(&self.frames[i].image, self.angle);
                Some(fit_for_texture(turned, texture_side(max_texture_side)))
            },
        }
    }

    /// Checks whether the rotation can be saved: not when the image is not
    /// turned, not for an animation (or when nothing is shown). When it cannot,
    /// the status says why.
    pub fn save_plan(&mut self) -> (r: SavePlan)
        requires
            old(self).wf(),
        ensures
            final(self).wf(),
            r is Write <==> old(self).can_save(),
            old(self).view_angle() % 360 == 0 ==> final(self).status_view() == not_rotated_status(),
            old(self).view_angle() % 360 != 0 && old(self).frames_view().len() != 1 ==> final(self).status_view() == animated_status(),
            r is Write ==> final(self).status_view() == old(self).status_view(),
            final(self).entries_view() == old(self).entries_view(),
            final(self).frames_view() == old(self).frames_view(),
            final(self).thumbs_view() == old(self).thumbs_view(),
            final(self).view_index() == old(self).view_index(),
            final(self).view_angle() == old(self).view_angle(),
            final(self).view_cur_frame() == old(self).view_cur_frame(),
    {
        if self.angle % 360 == 0 {
            self.status = String::from_str("Nothing to save (image not rotated)");
            return SavePlan::Nothing;
        }
        if self.frames.len() != 1 {
            self.status = String::from_str("Save rotation isn't supported for animated images");
            return SavePlan::Nothing;
        }
        SavePlan::Write
    }

    /// The shown still turned by the current rotation: what saving writes.
    pub fn rotated_still(&self) -> (r: Picture)
        requires
            self.wf(),
            self.can_save(),
        ensures
            r.view_image() == turned_image(self.frames_view()[0].image.view_image(), self.view_angle()),
            r.view_width() == turned_width(self.frames_view()[0].image, self.view_angle()),
            r.view_height() == turned_height(self.frames_view()[0].image, self.view_angle()),
    {
        rotate_image(&self.frames[0].image, self.angle)
    }

    /// Records a successful save of `rotated` over the current file: the
    /// rotation becomes part of the image (shown unrotated from now on), the
    /// thumbnail becomes `thumb`, and the status names the file, noting a JPEG
    /// re-encode.
    pub fn saved(&mut self, rotated: Picture, thumb: T)
        requires
            old(self).wf(),
            old(self).can_save(),
        ensures
            final(self).wf(),
            final(self).frames_view() == seq![AnimFrame { image: rotated, delay_ns: 0u64 }],
            final(self).view_angle() == 0,
            final(self).thumbs_view() == old(self).thumbs_view().update(
                old(self).view_index() as int,
                ThumbState::Ready(thumb),
            ),
            final(self).status_view() == saved_status(
                old(self).path_text(old(self).view_index() as int),
            ),
            final(self).entries_view() == old(self).entries_view(),
            final(self).view_index() == old(self).view_index(),
            final(self).view_cur_frame() == 0,
    {
        proof {
            reveal_strlit("");
        }
        let i = self.index;
        self.thumbs.set(i, ThumbState::Ready(thumb));
        let mut frames: Vec<AnimFrame<Picture>> = Vec::new();
        frames.push(AnimFrame { image: rotated, delay_ns: 0 });
        self.frames = frames;
        self.cur_frame = 0;
        self.angle = 0;
        let path = self.entries[i].1.as_str();
        let mut s = String::new();
        s.append("Saved rotation \u{2192} ");
        let name = file_name_string(path);
        s.append(name.as_str());
        if is_jpeg(path) {
            s.append("  (JPEG re-encoded, q95)");
        }
        self.status = s;
    }

    /// Records a failed save; the status gives the error.
    pub fn save_failed(&mut self, err: &str)
        requires
            old(self).wf(),
        ensures
            final(self).wf(),
            final(self).status_view() == save_failed_status(err@),
            final(self).entries_view() == old(self).entries_view(),
            final(self).frames_view() == old(self).frames_view(),
            final(self).thumbs_view() == old(self).thumbs_view(),
            final(self).view_index() == old(self).view_index(),
            final(self).view_angle() == old(self).view_angle(),
            final(self).view_cur_frame() == old(self).view_cur_frame(),
    {
        let mut s = String::new();
        s.append("Save failed: ");
        s.append(err);
        self.status = s;
    }

    /// Records a finished thumbnail decode for image `index`: `Some` is drawn,
    /// `None` marks the file as undecodable, so a failure never looks like a
    /// decode still running. A message for an index past the strip (from a
    /// folder since replaced) is dropped.
    pub fn receive_thumb(&mut self, index: usize, thumb: Option<T>)
        requires
            old(self).wf(),
        ensures
            final(self).wf(),
            index < old(self).thumbs_view().len() ==> final(self).thumbs_view() == old(self).thumbs_view().update(
                index as int,
                match thumb {
                    Some(t) => ThumbState::Ready(t),
                    None => ThumbState::Failed,
                },
            ),
            index >= old(self).thumbs_view().len() ==> final(self).thumbs_view() == old(self).thumbs_view(),
            final(self).entries_view() == old(self).entries_view(),
            final(self).frames_view() == old(self).frames_view(),
            final(self).view_index() == old(self).view_index(),
            final(self).view_angle() == old(self).view_angle(),
            final(self).view_cur_frame() == old(self).view_cur_frame(),
            final(self).status_view() == old(self).status_view(),
    {
        if index < self.thumbs.len() {
            let state = match thumb {
                Some(t) => ThumbState::Ready(t),
                None => ThumbState::Failed,
            };
            self.thumbs.set(index, state);
        }
    }
}

/// Where a folder is opened: at the first image marked as the one asked for,
/// else at the first image.
pub fn start_index(matches: &Vec<bool>) -> (r: usize)
    ensures
        matches@.len() == 0 ==> r == 0,
        matches@.len() > 0 ==> r < matches@.len(),
        r < matches@.len() && matches@[r as int] ==> forall|k: int| 0 <= k < r ==> !matches@[k],
        (exists|k: int| 0 <= k < matches@.len() && matches@[k]) ==> matches@[r as int],
        !(exists|k: int| 0 <= k < matches@.len() && matches@[k]) ==> r == 0,
{
    let mut i: usize = 0;
    while i < matches.len()
        invariant
            i <= matches.len(),
            forall|k: int| 0 <= k < i ==> !matches@[k],
        decreases matches.len() - i,
    {
        if matches[i] {
            return i;
        }
        i = i + 1;
    }
    0
}

} // verus!

verus! {

/// Going to the next image and then to the previous one comes back to the
/// same image, and so does the other way round; both stay in range.
pub proof fn lemma_prev_undoes_next(index: int, len: int)
    requires
        0 <= index < len,
    ensures
        0 <= spec_next_index(index, len) < len,
        0 <= spec_prev_index(index, len) < len,
        spec_prev_index(spec_next_index(index, len), len) == index,
        spec_next_index(spec_prev_index(index, len), len) == index,
{
    // next
    if index + 1 < len {
        lemma_small_mod((index + 1) as nat, len as nat);
        // prev of index + 1
        lemma_mod_add_multiples_vanish(index, len);
        lemma_small_mod(index as nat, len as nat);
        assert(spec_prev_index(index + 1, len) == index);
    } else {
        lemma_mod_self_0(len);
        lemma_small_mod((len - 1) as nat, len as nat);
        assert(spec_prev_index(0, len) == len - 1);
    }
    // prev
    if index == 0 {
        lemma_small_mod((len - 1) as nat, len as nat);
        lemma_mod_self_0(len);
        assert(spec_next_index(len - 1, len) == 0);
    } else {
        lemma_mod_add_multiples_vanish(index - 1, len);
        lemma_small_mod((index - 1) as nat, len as nat);
        lemma_small_mod(index as nat, len as nat);
        assert(spec_next_index(index - 1, len) == index);
    }
}

/// Stepping to the next image as many times as there are images comes back to
/// where it started.
pub proof fn lemma_next_cycles(index: int, len: int, steps: nat)
    requires
        0 <= index < len,
    ensures
        repeat_next(index, len, steps) == (index + steps) % len,
    decreases steps,
{
    if steps == 0 {
        lemma_small_mod(index as nat, len as nat);
    } else {
        lemma_next_cycles(index, len, (steps - 1) as nat);
        let k = repeat_next(index, len, (steps - 1) as nat);
        vstd::arithmetic::div_mod::lemma_add_mod_noop(index + steps - 1, 1, len);
        vstd::arithmetic::div_mod::lemma_mod_twice(index + steps - 1, len);
        if len == 1 {
            lemma_mod_self_0(1);
            assert((k + 1) % 1 == 0) by (nonlinear_arith);
            assert((index + steps) % 1 == 0) by (nonlinear_arith);
        } else {
            lemma_small_mod(1, len as nat);
        }
    }
}

/// The index reached from `index` after `steps` moves to the next image.
pub open spec fn repeat_next(index: int, len: int, steps: nat) -> int
    decreases steps,
{
    if steps == 0 {
        index
    } else {
        spec_next_index(repeat_next(index, len, (steps - 1) as nat), len)
    }
}

/// `len` moves forward from any image end where they began.
pub proof fn lemma_full_cycle_returns(index: int, len: int)
    requires
        0 <= index < len,
    ensures
        repeat_next(index, len, len as nat) == index,
{
    lemma_next_cycles(index, len, len as nat);
    lemma_mod_add_multiples_vanish(index, len);
    lemma_small_mod(index as nat, len as nat);
}

/// A quarter turn one way undone by a quarter turn the other way gives back the
/// rotation; four quarter turns in the same direction give it back too; every
/// rotation stays in `0..360`.
pub proof fn lemma_quarter_turns(angle: int)
    requires
        0 <= angle < 360,
    ensures
        spec_normalize_angle(spec_normalize_angle(angle + 90) - 90) == angle,
        spec_normalize_angle(spec_normalize_angle(angle - 90) + 90) == angle,
        spec_normalize_angle(
            spec_normalize_angle(spec_normalize_angle(spec_normalize_angle(angle + 90) + 90) + 90)
                + 90,
        ) == angle,
        0 <= spec_normalize_angle(angle + 90) < 360,
        0 <= spec_normalize_angle(angle - 90) < 360,
{
}

/// A turn by any number of degrees is undone by the opposite turn: from any
/// rotation in `0..360`, turning by `delta` and then by `-delta` gives it back.
pub proof fn lemma_turn_undone(angle: int, delta: int)
    requires
        0 <= angle < 360,
    ensures
        spec_normalize_angle(spec_normalize_angle(angle + delta) - delta) == angle,
        0 <= spec_normalize_angle(angle + delta) < 360,
{
    let q = (angle + delta) / 360;
    lemma_fundamental_div_mod(angle + delta, 360);
    assert(spec_normalize_angle(angle + delta) - delta == 360 * (-q) + angle);
    lemma_mod_multiples_vanish(-q, angle, 360);
    lemma_small_mod(angle as nat, 360);
}

/// Turning by a quarter swaps the sides of the rotated picture exactly when
/// the turns add up to an odd number of quarters.
pub proof fn lemma_quarter_turn_swaps_sides(angle: int)
    requires
        0 <= angle < 360,
        angle % 90 == 0,
    ensures
        swaps_sides(angle + 90) == !swaps_sides(angle),
        swaps_sides(angle - 90) == !swaps_sides(angle),
{
}

} // verus!

verus! {

/// After a file fails to decode the view is cleared (no frames, no rotation),
/// and turning it by any amount leaves it so (`rotate` changes nothing when
/// there are no frames): saving it writes nothing, reporting that the image is
/// not rotated. So the picture shown before the failure is never saved over
/// the file that failed.
pub proof fn lemma_cleared_view_never_saves<P, T>(v: Viewer<P, T>)
    requires
        v.frames_view().len() == 0,
        v.view_angle() == 0,
    ensures
        !v.can_save(),
        v.view_angle() % 360 == 0,
{
}

} // verus!
