//! Sprite animation: the animations of a sprite sheet, read from its frame
//! tags, and the frame that an animated sprite shows next.

use vstd::prelude::*;

verus! {

/// One frame of a sprite sheet: how long it is shown, in milliseconds.
#[derive(Clone, Copy, Debug, PartialEq, Eq, Structural)]
pub struct Frame {
    pub duration: u32,
}

/// A named run of frames of a sprite sheet, from `from` to `to`.
#[derive(Debug, PartialEq, Eq)]
pub struct Frametag {
    pub name: String,
    pub from: u32,
    pub to: u32,
}

/// What a sprite sheet says beside its frames.
#[derive(Debug, PartialEq, Eq)]
pub struct Metadata {
    pub frame_tags: Option<Vec<Frametag>>,
}

/// The description of a sprite sheet, as far as animation reads it.
#[derive(Debug, PartialEq, Eq)]
pub struct SpritesheetData {
    pub frames: Vec<Frame>,
    pub meta: Metadata,
}

/// A frame tag as a mathematical value.
pub struct FrametagView {
    pub name: Seq<char>,
    pub from: u32,
    pub to: u32,
}

impl View for Frametag {
    type V = FrametagView;

    open spec fn view(&self) -> FrametagView {
        FrametagView { name: self.name@, from: self.from, to: self.to }
    }
}

/// The views of a sequence of frame tags, in order.
pub open spec fn tag_views(tags: Seq<Frametag>) -> Seq<FrametagView> {
    tags.map_values(|t: Frametag| t@)
}

/// The frames of one animation, and the frames it repeats once it has run through.
#[derive(Clone, Copy, Debug, PartialEq, Eq, Structural)]
pub struct Animation {
    pub start_index: usize,
    pub end_index: usize,
    pub loop_start: usize,
    pub loop_end: usize,
}

impl Default for Animation {
    fn default() -> (a: Animation)
        ensures
            a == (Animation { start_index: 0, end_index: 0, loop_start: 0, loop_end: 0 }),
    {
        Animation { start_index: 0, end_index: 0, loop_start: 0, loop_end: 0 }
    }
}

impl Animation {
    /// Whether every frame that the animation names is one of `frames` frames.
    pub open spec fn within(self, frames: nat) -> bool {
        &&& self.start_index < frames
        &&& self.end_index < frames
        &&& self.loop_start < frames
        &&& self.loop_end < frames
    }

    /// Whether every frame that the animation names is one of `frames` frames.
    pub fn is_within(&self, frames: usize) -> (b: bool)
        ensures
            b == self.within(frames as nat),
    {
        self.start_index < frames && self.end_index < frames && self.loop_start < frames
            && self.loop_end < frames
    }
}

/// Whether the tag `l` marks a loop that lies inside the frames of the tag `a`.
pub open spec fn is_loop_of(l: FrametagView, a: FrametagView) -> bool {
    l.name == "loop"@ && l.from >= a.from && l.to <= a.to
}

/// The first tag at or after `from` that marks a loop inside the frames of `a`.
pub open spec fn first_loop(tags: Seq<FrametagView>, a: FrametagView, from: int) -> Option<int>
    decreases tags.len() - from,
{
    if from < 0 || from >= tags.len() {
        None
    } else if is_loop_of(tags[from], a) {
        Some(from)
    } else {
        first_loop(tags, a, from + 1)
    }
}

/// The animation that the tag `a` stands for: its frames, and as its loop the
/// first loop that lies inside them, or all of them if there is none.
pub open spec fn animation_of(tags: Seq<FrametagView>, a: FrametagView) -> Animation {
    match first_loop(tags, a, 0) {
        Some(i) => Animation {
            start_index: a.from as usize,
            end_index: a.to as usize,
            loop_start: tags[i].from as usize,
            loop_end: tags[i].to as usize,
        },
        None => Animation {
            start_index: a.from as usize,
            end_index: a.to as usize,
            loop_start: a.from as usize,
            loop_end: a.to as usize,
        },
    }
}

/// The animations that the first `n` tags give, by name: one for each tag
/// that is not called "loop"; of two tags with one name the later one counts.
pub open spec fn animations_of(tags: Seq<FrametagView>, n: int) -> Map<Seq<char>, Animation>
    decreases n,
{
    if n <= 0 {
        Map::empty()
    } else if tags[n - 1].name == "loop"@ {
        animations_of(tags, n - 1)
    } else {
        animations_of(tags, n - 1).insert(tags[n - 1].name, animation_of(tags, tags[n - 1]))
    }
}

/// One animation under its name.
struct Named {
    name: String,
    animation: Animation,
}

spec fn names(entries: Seq<Named>, name: Seq<char>) -> bool {
    exists|j: int| 0 <= j < entries.len() && #[trigger] entries[j].name@ == name
}

spec fn place(entries: Seq<Named>, name: Seq<char>) -> int {
    choose|j: int| 0 <= j < entries.len() && #[trigger] entries[j].name@ == name
}

spec fn unique(entries: Seq<Named>) -> bool {
    forall|i: int, j: int|
        0 <= i < entries.len() && 0 <= j < entries.len() && i != j ==> #[trigger] entries[i].name@
            != #[trigger] entries[j].name@
}

spec fn by_name(entries: Seq<Named>) -> Map<Seq<char>, Animation> {
    Map::new(|n: Seq<char>| names(entries, n), |n: Seq<char>| entries[place(entries, n)].animation)
}

proof fn lemma_place(entries: Seq<Named>, j: int)
    requires
        unique(entries),
        0 <= j < entries.len(),
    ensures
        names(entries, entries[j].name@),
        place(entries, entries[j].name@) == j,
        by_name(entries)[entries[j].name@] == entries[j].animation,
{
}

/// Puts `animation` under `name`, in place of what was there under that name.
fn put(entries: &mut Vec<Named>, name: String, animation: Animation)
    requires
        unique(old(entries)@),
    ensures
        unique(final(entries)@),
        by_name(final(entries)@) == by_name(old(entries)@).insert(name@, animation),
{
    let mut i: usize = 0;
    while i < entries.len()
        invariant
            i <= entries.len(),
            *entries == *old(entries),
            unique(entries@),
            forall|j: int| 0 <= j < i ==> entries@[j].name@ != name@,
        decreases entries.len() - i,
    {
        if entries[i].name == name {
            entries[i].animation = animation;
            proof {
                let before = old(entries)@;
                let after = entries@;
                assert forall|j: int| 0 <= j < after.len() implies #[trigger] after[j].name@
                    == before[j].name@ by {}
                assert forall|n: Seq<char>| names(after, n) <==> names(before, n) by {
                    if names(after, n) {
                        assert(before[place(after, n)].name@ == n);
                    }
                    if names(before, n) {
                        assert(after[place(before, n)].name@ == n);
                    }
                }
                assert forall|n: Seq<char>| names(after, n) implies by_name(after)[n] == by_name(
                    before,
                ).insert(name@, animation)[n] by {
                    let j = place(after, n);
                    lemma_place(after, j);
                    lemma_place(before, j);
                }
                lemma_place(before, i as int);
                assert(by_name(after) =~= by_name(before).insert(name@, animation));
            }
            return ;
        }
        i += 1;
    }
    entries.push(Named { name, animation });
    proof {
        let before = old(entries)@;
        let after = entries@;
        let last = before.len() as int;
        assert(after[last].name@ == name@);
        assert forall|n: Seq<char>| names(after, n) <==> names(before, n) || n == name@ by {
            if names(after, n) && n != name@ {
                assert(before[place(after, n)].name@ == n);
            }
            if names(before, n) {
                assert(after[place(before, n)].name@ == n);
            }
        }
        assert forall|n: Seq<char>| names(after, n) implies by_name(after)[n] == by_name(
            before,
        ).insert(name@, animation)[n] by {
            let j = place(after, n);
            lemma_place(after, j);
            if j < last {
                lemma_place(before, j);
            }
        }
        assert(by_name(after) =~= by_name(before).insert(name@, animation));
    }
}

/// The animations of one sprite sheet and the time that each of its frames is shown.
pub struct AnimatorArchetype {
    animations: Vec<Named>,
    frame_times: Vec<u64>,
}

impl AnimatorArchetype {
    /// The animations, by name.
    pub closed spec fn animations(&self) -> Map<Seq<char>, Animation> {
        by_name(self.animations@)
    }

    /// How long each frame is shown, in milliseconds.
    pub closed spec fn frame_times(&self) -> Seq<u64> {
        self.frame_times@
    }

    /// The invariant of the representation.
    pub closed spec fn wf(&self) -> bool {
        unique(self.animations@)
    }

    /// Whether an animator can be made: there is an animation called "idle",
    /// and every frame it names is a frame of the sheet.
    pub open spec fn playable(&self) -> bool {
        self.animations().contains_key("idle"@) && self.animations()["idle"@].within(
            self.frame_times().len(),
        )
    }

    /// Reads the animations of a sprite sheet from its frame tags, and the
    /// frame times from its frames. The sheet must have frame tags.
    pub fn from_aseprite(data: &SpritesheetData) -> (archetype: AnimatorArchetype)
        requires
            data.meta.frame_tags is Some,
        ensures
            archetype.wf(),
            archetype.animations() == animations_of(
                tag_views(data.meta.frame_tags->0@),
                data.meta.frame_tags->0@.len() as int,
            ),
            archetype.frame_times() == data.frames@.map_values(|f: Frame| f.duration as u64),
    {
        let frame_tags = match &data.meta.frame_tags {
            Some(frame_tags) => frame_tags,
            None => {
                return AnimatorArchetype { animations: Vec::new(), frame_times: Vec::new() };
            },
        };
        let ghost tags = tag_views(frame_tags@);
        let loop_name = "loop".to_string();
        let mut animations: Vec<Named> = Vec::new();
        assert(by_name(animations@) =~= animations_of(tags, 0));
        let mut k: usize = 0;
        while k < frame_tags.len()
            invariant
                k <= frame_tags.len(),
                tags == tag_views(frame_tags@),
                loop_name@ == "loop"@,
                unique(animations@),
                by_name(animations@) == animations_of(tags, k as int),
            decreases frame_tags.len() - k,
        {
            let animation = &frame_tags[k];
            assert(tags[k as int] == animation@);
            if !(animation.name == loop_name) {
                let mut j: usize = 0;
                let mut at: Option<usize> = None;
                while j < frame_tags.len() && at.is_none()
                    invariant
                        j <= frame_tags.len(),
                        tags == tag_views(frame_tags@),
                        loop_name@ == "loop"@,
                        at is None ==> first_loop(tags, animation@, 0) == first_loop(
                            tags,
                            animation@,
                            j as int,
                        ),
                        at matches Some(i) ==> i < frame_tags.len() && first_loop(
                            tags,
                            animation@,
                            0,
                        ) == Some(i as int),
                    decreases
                            frame_tags.len() - j + if at is None {
                                1int
                            } else {
                                0int
                            },
                {
                    let l = &frame_tags[j];
                    assert(tags[j as int] == l@);
                    if l.name == loop_name && l.from >= animation.from && l.to <= animation.to {
                        at = Some(j);
                    } else {
                        j += 1;
                    }
                }
                let (loop_start, loop_end) = match at {
                    Some(i) => {
                        assert(tags[i as int] == frame_tags@[i as int]@);
                        (frame_tags[i].from, frame_tags[i].to)
                    },
                    None => (animation.from, animation.to),
                };
                let found = Animation {
                    start_index: animation.from as usize,
                    end_index: animation.to as usize,
                    loop_start: loop_start as usize,
                    loop_end: loop_end as usize,
                };
                assert(found == animation_of(tags, animation@));
                put(&mut animations, animation.name.clone(), found);
            }
            k += 1;
        }
        let mut frame_times: Vec<u64> = Vec::new();
        let mut i: usize = 0;
        while i < data.frames.len()
            invariant
                i <= data.frames.len(),
                frame_times@ == data.frames@.take(i as int).map_values(|f: Frame| f.duration as u64),
            decreases data.frames.len() - i,
        {
            frame_times.push(data.frames[i].duration as u64);
            i += 1;
            assert(frame_times@ =~= data.frames@.take(i as int).map_values(
                |f: Frame| f.duration as u64,
            ));
        }
        assert(data.frames@.take(data.frames@.len() as int) =~= data.frames@);
        AnimatorArchetype { animations, frame_times }
    }

    /// The animation with the given name.
    pub fn animation(&self, name: &String) -> (r: Option<Animation>)
        requires
            self.wf(),
        ensures
            r == if self.animations().contains_key(name@) {
                Some(self.animations()[name@])
            } else {
                None
            },
    {
        let mut i: usize = 0;
        while i < self.animations.len()
            invariant
                i <= self.animations.len(),
                self.wf(),
                forall|j: int| 0 <= j < i ==> self.animations@[j].name@ != name@,
            decreases self.animations.len() - i,
        {
            if self.animations[i].name == *name {
                proof {
                    lemma_place(self.animations@, i as int);
                }
                return Some(self.animations[i].animation);
            }
            i += 1;
        }
        None
    }

    /// The number of frames of the sheet.
    pub fn frame_count(&self) -> (n: usize)
        ensures
            n == self.frame_times().len(),
    {
        self.frame_times.len()
    }

    /// Whether an animator can be made of this archetype.
    pub fn is_playable(&self) -> (b: bool)
        requires
            self.wf(),
        ensures
            b == self.playable(),
    {
        let idle = "idle".to_string();
        match self.animation(&idle) {
            Some(animation) => animation.is_within(self.frame_times.len()),
            None => false,
        }
    }

    /// An animator that shows the first frame of the animation called "idle".
    pub fn new_instance(&self) -> (animator: Animator)
        requires
            self.wf(),
            self.playable(),
        ensures
            animator.wf(),
            animator@ == (AnimatorView {
                frame_times: self.frame_times(),
                current_animation: self.animations()["idle"@],
                current_frame: self.animations()["idle"@].start_index,
                next_animation: None,
            }),
    {
        let name = "idle".to_string();
        let idle = match self.animation(&name) {
            Some(idle) => idle,
            None => Animation::default(),
        };
        Animator {
            frame_times: self.frame_times.clone(),
            current_frame: idle.start_index,
            current_animation: idle,
            next_animation: None,
        }
    }
}

/// The state of one animated sprite.
pub struct Animator {
    frame_times: Vec<u64>,
    current_animation: Animation,
    current_frame: usize,
    next_animation: Option<Animation>,
}

/// An animator as a mathematical value.
pub struct AnimatorView {
    pub frame_times: Seq<u64>,
    pub current_animation: Animation,
    pub current_frame: usize,
    pub next_animation: Option<Animation>,
}

impl AnimatorView {
    /// Every frame that the animator names is a frame of the sheet.
    pub open spec fn wf(self) -> bool {
        &&& self.current_frame < self.frame_times.len()
        &&& self.current_animation.within(self.frame_times.len())
        &&& self.next_animation matches Some(next) ==> next.within(self.frame_times.len())
    }

    /// The state once the shown frame has had its time: the next frame is
    /// shown. Past the end of the current animation a waiting animation takes
    /// over at its start; with none waiting, the frame after the end of the
    /// loop is the start of the loop.
    pub open spec fn advance(self) -> AnimatorView {
        let frame = self.current_frame + 1;
        match self.next_animation {
            Some(next) => if frame > self.current_animation.end_index {
                AnimatorView {
                    frame_times: self.frame_times,
                    current_animation: next,
                    current_frame: next.start_index,
                    next_animation: None,
                }
            } else {
                AnimatorView {
                    frame_times: self.frame_times,
                    current_animation: self.current_animation,
                    current_frame: frame as usize,
                    next_animation: self.next_animation,
                }
            },
            None => AnimatorView {
                frame_times: self.frame_times,
                current_animation: self.current_animation,
                current_frame: if frame > self.current_animation.loop_end {
                    self.current_animation.loop_start
                } else {
                    frame as usize
                },
                next_animation: None,
            },
        }
    }
}

/// Advancing keeps every frame that the animator names inside the sheet.
pub proof fn lemma_advance_wf(a: AnimatorView)
    requires
        a.wf(),
    ensures
        a.advance().wf(),
{
}

impl View for Animator {
    type V = AnimatorView;

    closed spec fn view(&self) -> AnimatorView {
        AnimatorView {
            frame_times: self.frame_times@,
            current_animation: self.current_animation,
            current_frame: self.current_frame,
            next_animation: self.next_animation,
        }
    }
}

impl Animator {
    /// The invariant of the animator.
    pub closed spec fn wf(&self) -> bool {
        self@.wf()
    }

    /// The frame that is shown.
    pub fn current_frame(&self) -> (frame: usize)
        ensures
            frame == self@.current_frame,
    {
        self.current_frame
    }

    /// The animation that runs.
    pub fn current_animation(&self) -> (animation: Animation)
        ensures
            animation == self@.current_animation,
    {
        self.current_animation
    }

    /// How long the shown frame is shown, in milliseconds.
    pub fn frame_time(&self) -> (time: u64)
        requires
            self.wf(),
        ensures
            time == self@.frame_times[self@.current_frame as int],
    {
        self.frame_times[self.current_frame]
    }

    /// Lets `animation` take over once the current animation has reached its
    /// end. Answers whether every frame it names is a frame of the sheet; if
    /// not, nothing changes.
    pub fn set_next_animation(&mut self, animation: Animation) -> (accepted: bool)
        requires
            old(self).wf(),
        ensures
            final(self).wf(),
            accepted == animation.within(old(self)@.frame_times.len()),
            accepted ==> final(self)@ == (AnimatorView {
                next_animation: Some(animation),
                ..old(self)@
            }),
            !accepted ==> final(self)@ == old(self)@,
    {
        if !animation.is_within(self.frame_times.len()) {
            return false;
        }
        self.next_animation = Some(animation);
        true
    }
}

/// Moves an animator whose frame has had its time to the next frame, and
/// hands out the frame to show.
pub fn animate_sprite(animator: &mut Animator) -> (frame: usize)
    requires
        old(animator).wf(),
    ensures
        final(animator).wf(),
        final(animator)@ == old(animator)@.advance(),
        frame == final(animator)@.current_frame,
{
    let frames = animator.frame_times.len();
    assert(animator.current_frame < frames);
    animator.current_frame += 1;
    match animator.next_animation {
        Some(next) => {
            if animator.current_frame > animator.current_animation.end_index {
                animator.current_animation = next;
                animator.next_animation = None;
                animator.current_frame = animator.current_animation.start_index;
            }
        },
        None => {
            if animator.current_frame > animator.current_animation.loop_end {
                animator.current_frame = animator.current_animation.loop_start;
            }
        },
    }
    animator.current_frame
}

} // verus!
