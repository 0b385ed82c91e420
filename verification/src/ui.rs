//! The picker's view state and the transitions that events cause on it.
//!
//! [`AppView`] owns the list of wallpapers in the order in which the scan
//! delivered them, the range of the list whose thumbnails are wanted in
//! memory, the selection, and the last scroll offset.  [`AppView::update`]
//! takes one event, changes the state and answers with a [`Command`] for the
//! caller to carry out.  Its contract is stated over [`AppViewModel`], the
//! mathematical picture of the state.

pub mod navigation;
pub mod window;

use crate::constants::{
    IMAGES_PER_ROW, INITIAL_WINDOW, LOAD_BUFFER, ROW_HEIGHT, UNLOAD_SLACK, VIEWPORT_HEIGHT,
};
use crate::message::{Command, Key, Message, Named, ThumbnailRequest};
use crate::ui::navigation::{move_index, moved, Direction};
use crate::ui::window::{
    distance, drawn, in_view, is_in_view, keeps_thumbnail, lemma_near_view_within_slack,
    lemma_window_in_list, load_window, render_window, row_offset, scroll_target, visible_end,
    visible_start, window_end, window_start, within_slack, RenderWindow, Viewport,
};
use crate::wallpaper_image::WallpaperImage;
use vstd::prelude::*;

verus! {

/// The state of the view as contracts see it.
#[verifier::ext_equal]
pub struct AppViewModel<H> {
    /// The wallpapers, in order of arrival.
    pub images: Seq<WallpaperImage<H>>,
    /// The load window, end exclusive.
    pub visible_range: (usize, usize),
    pub selected_idx: usize,
    /// Offset of the last scroll event, in pixels.
    pub scroll_offset: u32,
}

/// The requests that a load pass over `images[start..end]` makes: one for
/// each unloaded thumbnail, by rising index.
pub open spec fn pending_requests<H>(
    images: Seq<WallpaperImage<H>>,
    start: int,
    end: int,
) -> Seq<ThumbnailRequest>
    decreases end - start,
{
    if end <= start {
        Seq::empty()
    } else {
        let earlier = pending_requests(images, start, end - 1);
        if 0 <= end - 1 < images.len() && images[end - 1].thumbnail is Unloaded {
            earlier.push(
                ThumbnailRequest {
                    index: (end - 1) as usize,
                    thumbnail_path: images[end - 1].thumbnail_path,
                },
            )
        } else {
            earlier
        }
    }
}

/// The key's direction, for the four arrow keys.
pub open spec fn arrow(key: Key) -> Option<Direction> {
    match key {
        Key::Named(Named::ArrowUp) => Some(Direction::Up),
        Key::Named(Named::ArrowDown) => Some(Direction::Down),
        Key::Named(Named::ArrowLeft) => Some(Direction::Left),
        Key::Named(Named::ArrowRight) => Some(Direction::Right),
        _ => None,
    }
}

impl<H> AppViewModel<H> {
    /// What holds of every state that `AppView::new` and `AppView::update`
    /// produce: the load window is a range, and the selection is an index of
    /// the list, or 0 while the list is empty.
    pub open spec fn well_formed(self) -> bool {
        &&& self.visible_range.0 <= self.visible_range.1
        &&& (self.selected_idx < self.images.len() || self.selected_idx == 0)
    }

    /// Whether the list is one that a machine can hold: its length is a
    /// `usize`.  It holds of the state of every `AppView`.
    pub open spec fn fits(self) -> bool {
        self.images.len() <= usize::MAX
    }

    /// Whether the load window lies inside the list.  The window of a new
    /// view reaches past the end of its empty list, so that the first
    /// arrivals are loaded without a scroll event.
    pub open spec fn window_in_list(self) -> bool {
        self.visible_range.0 <= self.visible_range.1 <= self.images.len()
    }

    /// Whether `index` lies in the load window.
    pub open spec fn in_window(self, index: int) -> bool {
        self.visible_range.0 <= index < self.visible_range.1
    }

    /// The viewport that `ScrollToVisible` assumes: the last scroll offset
    /// and the fixed height.
    pub open spec fn assumed_viewport(self) -> Viewport {
        Viewport { offset_y: self.scroll_offset, height: VIEWPORT_HEIGHT }
    }

    /// The load window that belongs to a scroll position.
    pub open spec fn window_for(self, viewport: Viewport) -> (usize, usize) {
        (
            window_start(
                viewport,
                ROW_HEIGHT as int,
                IMAGES_PER_ROW as int,
                LOAD_BUFFER as int,
                self.images.len() as int,
            ) as usize,
            window_end(
                viewport,
                ROW_HEIGHT as int,
                IMAGES_PER_ROW as int,
                LOAD_BUFFER as int,
                self.images.len() as int,
            ) as usize,
        )
    }

    /// The list after a change of the load window to `window`: thumbnails in
    /// memory further than `UNLOAD_SLACK` from it are dropped.
    pub open spec fn unloaded_outside(self, window: (usize, usize)) -> Seq<WallpaperImage<H>> {
        Seq::new(
            self.images.len(),
            |i: int|
                if within_slack(i, window.0 as int, window.1 as int, UNLOAD_SLACK as int) {
                    self.images[i]
                } else {
                    self.images[i].unloaded()
                },
        )
    }

    /// The list after a load pass: every unloaded thumbnail in the load
    /// window is being read.
    pub open spec fn requested_inside(self) -> Seq<WallpaperImage<H>> {
        Seq::new(
            self.images.len(),
            |i: int|
                if self.in_window(i) {
                    self.images[i].requested()
                } else {
                    self.images[i]
                },
        )
    }

    /// The requests of a load pass.
    pub open spec fn load_requests(self) -> Seq<ThumbnailRequest> {
        pending_requests(
            self.images,
            self.visible_range.0 as int,
            vstd::math::min(self.visible_range.1 as int, self.images.len() as int),
        )
    }

    /// The selection after a move.
    pub open spec fn moved_selection(self, direction: Direction) -> usize {
        moved(
            self.selected_idx as int,
            self.images.len() as int,
            IMAGES_PER_ROW as int,
            direction,
        ) as usize
    }

    /// Whether the selection lies in a row on screen, going by the last
    /// scroll offset.
    pub open spec fn selection_in_view(self) -> bool {
        in_view(
            self.selected_idx as int,
            self.assumed_viewport(),
            ROW_HEIGHT as int,
            IMAGES_PER_ROW as int,
        )
    }

    /// The state after `message`.
    pub open spec fn step(self, message: Message<H>) -> Self {
        match message {
            Message::WallpaperDiscovered(image) => AppViewModel {
                images: self.images.push(image),
                ..self
            },
            Message::ScrolledTo(viewport) => {
                let window = self.window_for(viewport);
                if window == self.visible_range {
                    AppViewModel { scroll_offset: viewport.offset_y, ..self }
                } else {
                    AppViewModel {
                        images: self.unloaded_outside(window),
                        visible_range: window,
                        scroll_offset: viewport.offset_y,
                        ..self
                    }
                }
            },
            Message::LoadVisibleThumbnails => AppViewModel {
                images: self.requested_inside(),
                ..self
            },
            Message::ThumbnailLoaded(index, handle) => if index < self.images.len() {
                AppViewModel {
                    images: self.images.update(index as int, self.images[index as int].loaded(handle)),
                    ..self
                }
            } else {
                self
            },
            Message::ThumbnailFailed(index) => if index < self.images.len() {
                AppViewModel {
                    images: self.images.update(index as int, self.images[index as int].load_failed()),
                    ..self
                }
            } else {
                self
            },
            Message::ImageHovered(Some(index)) => if index < self.images.len() {
                AppViewModel { selected_idx: index, ..self }
            } else {
                self
            },
            Message::ImageHovered(None) => self,
            Message::KeyPressed(key) => match arrow(key) {
                Some(direction) => AppViewModel {
                    selected_idx: self.moved_selection(direction),
                    ..self
                },
                None => self,
            },
            Message::WallpaperSelected => self,
            Message::ScrollToVisible => self,
        }
    }

    /// Whether `command` is the answer to `message` in this state.
    pub open spec fn answers(self, message: Message<H>, command: Command) -> bool {
        match message {
            Message::WallpaperDiscovered(_) => command == if self.in_window(
                self.images.len() as int,
            ) {
                Command::LoadVisibleThumbnails
            } else {
                Command::Idle
            },
            Message::ScrolledTo(viewport) => command == if self.window_for(viewport)
                == self.visible_range {
                Command::Idle
            } else {
                Command::LoadVisibleThumbnails
            },
            Message::LoadVisibleThumbnails => {
                &&& command matches Command::LoadThumbnails(requests)
                &&& requests@ == self.load_requests()
            },
            Message::ThumbnailLoaded(_, _) => command == Command::Idle,
            Message::ThumbnailFailed(_) => command == Command::Idle,
            Message::ImageHovered(_) => command == Command::Idle,
            Message::KeyPressed(key) => command == match key {
                Key::Named(Named::Enter) => Command::WallpaperSelected,
                Key::Named(Named::Escape) => Command::Exit,
                _ => match arrow(key) {
                    Some(direction) => if self.moved_selection(direction) != self.selected_idx {
                        Command::ScrollToVisible
                    } else {
                        Command::Idle
                    },
                    None => Command::Idle,
                },
            },
            Message::WallpaperSelected => command == if self.selected_idx < self.images.len() {
                Command::ApplyWallpaper { img_path: self.images[self.selected_idx as int].img_path }
            } else {
                Command::Idle
            },
            Message::ScrollToVisible => command == if self.selection_in_view() {
                Command::Idle
            } else {
                Command::ScrollTo {
                    offset_y: row_offset(
                        self.selected_idx as int,
                        IMAGES_PER_ROW as int,
                        ROW_HEIGHT as int,
                    ) as u32,
                }
            },
        }
    }
}

/// The picker's view state.  `H` is the type of a thumbnail in memory.
pub struct AppView<H> {
    images: Vec<WallpaperImage<H>>,
    visible_range: (usize, usize),
    selected_idx: usize,
    scroll_offset: u32,
}

impl<H> View for AppView<H> {
    type V = AppViewModel<H>;

    closed spec fn view(&self) -> AppViewModel<H> {
        AppViewModel {
            images: self.images@,
            visible_range: self.visible_range,
            selected_idx: self.selected_idx,
            scroll_offset: self.scroll_offset,
        }
    }
}

impl<H> AppView<H> {
    /// An empty view whose load window takes in the first arrivals.
    pub fn new() -> (view: Self)
        ensures
            view@.images.len() == 0,
            view@.visible_range == (0usize, INITIAL_WINDOW),
            view@.selected_idx == 0,
            view@.scroll_offset == 0,
            view@.well_formed(),
            view@.fits(),
    {
        AppView {
            images: Vec::new(),
            visible_range: (0, INITIAL_WINDOW),
            selected_idx: 0,
            scroll_offset: 0,
        }
    }

    /// The list of every view fits the machine.
    pub proof fn lemma_fits(&self)
        ensures
            self@.fits(),
    {
        assert(self.images.len() == self.images@.len());
    }

    /// The wallpapers, in order of arrival.
    pub fn images(&self) -> (images: &Vec<WallpaperImage<H>>)
        ensures
            images@ == self@.images,
    {
        &self.images
    }

    /// The load window, end exclusive.
    pub fn visible_range(&self) -> (range: (usize, usize))
        ensures
            range == self@.visible_range,
    {
        self.visible_range
    }

    /// Index of the selected wallpaper.
    pub fn selected_idx(&self) -> (index: usize)
        ensures
            index == self@.selected_idx,
    {
        self.selected_idx
    }

    /// Offset of the last scroll event, in pixels.
    pub fn scroll_offset(&self) -> (offset: u32)
        ensures
            offset == self@.scroll_offset,
    {
        self.scroll_offset
    }

    /// Name of the selected wallpaper; empty while the list is.
    pub fn selected_name(&self) -> (name: &str)
        ensures
            name@ == if self@.selected_idx < self@.images.len() {
                self@.images[self@.selected_idx as int].name@
            } else {
                Seq::<char>::empty()
            },
    {
        if self.selected_idx < self.images.len() {
            self.images[self.selected_idx].name.as_str()
        } else {
            proof {
                reveal_strlit("");
            }
            ""
        }
    }

    /// The rows and items to draw for the current load window.
    pub fn render_window(&self) -> (window: RenderWindow)
        ensures
            drawn(
                self@.visible_range.0 as int,
                self@.visible_range.1 as int,
                self@.images.len() as int,
                IMAGES_PER_ROW as int,
                window,
            ),
    {
        render_window(self.visible_range, self.images.len(), IMAGES_PER_ROW)
    }

    /// Applies one event and answers with what the caller is to do next.
    pub fn update(&mut self, message: Message<H>) -> (command: Command)
        ensures
            final(self)@ =~= old(self)@.step(message),
            old(self)@.answers(message, command),
            old(self)@.well_formed() ==> final(self)@.well_formed(),
            old(self)@.fits(),
            final(self)@.fits(),
    {
        proof {
            self.lemma_fits();
        }
        let command = match message {
            Message::WallpaperDiscovered(image) => self.discover(image),
            Message::ScrolledTo(viewport) => self.scroll_to(viewport),
            Message::LoadVisibleThumbnails => self.load_visible(),
            Message::ThumbnailLoaded(index, handle) => {
                if index < self.images.len() {
                    self.images[index].finish_load(handle);
                }
                Command::Idle
            },
            Message::ThumbnailFailed(index) => {
                if index < self.images.len() {
                    self.images[index].fail_load();
                }
                Command::Idle
            },
            Message::ImageHovered(hovered) => {
                match hovered {
                    Some(index) => {
                        if index < self.images.len() {
                            self.selected_idx = index;
                        }
                    },
                    None => {},
                }
                Command::Idle
            },
            Message::KeyPressed(key) => match key {
                Key::Named(named) => match named {
                    Named::ArrowUp => self.move_selection(Direction::Up),
                    Named::ArrowDown => self.move_selection(Direction::Down),
                    Named::ArrowLeft => self.move_selection(Direction::Left),
                    Named::ArrowRight => self.move_selection(Direction::Right),
                    Named::Enter => Command::WallpaperSelected,
                    Named::Escape => Command::Exit,
                    Named::Other => Command::Idle,
                },
                _ => Command::Idle,
            },
            Message::WallpaperSelected => {
                if self.selected_idx < self.images.len() {
                    Command::ApplyWallpaper {
                        img_path: self.images[self.selected_idx].img_path.clone(),
                    }
                } else {
                    Command::Idle
                }
            },
            Message::ScrollToVisible => {
                let viewport = Viewport { offset_y: self.scroll_offset, height: VIEWPORT_HEIGHT };
                if is_in_view(self.selected_idx, viewport, ROW_HEIGHT, IMAGES_PER_ROW) {
                    Command::Idle
                } else {
                    Command::ScrollTo {
                        offset_y: scroll_target(self.selected_idx, IMAGES_PER_ROW, ROW_HEIGHT),
                    }
                }
            },
        };
        proof {
            self.lemma_fits();
        }
        command
    }

    /// Moves the selection and asks for it to be brought on screen if it
    /// changed.
    pub fn move_selection(&mut self, direction: Direction) -> (command: Command)
        ensures
            final(self)@ =~= (AppViewModel {
                selected_idx: old(self)@.moved_selection(direction),
                ..old(self)@
            }),
            command == if old(self)@.moved_selection(direction) != old(self)@.selected_idx {
                Command::ScrollToVisible
            } else {
                Command::Idle
            },
            old(self)@.well_formed() ==> final(self)@.well_formed(),
    {
        let target = move_index(self.selected_idx, self.images.len(), IMAGES_PER_ROW, direction);
        if target != self.selected_idx {
            self.selected_idx = target;
            Command::ScrollToVisible
        } else {
            Command::Idle
        }
    }

    fn discover(&mut self, image: WallpaperImage<H>) -> (command: Command)
        ensures
            final(self)@ =~= old(self)@.step(Message::WallpaperDiscovered(image)),
            old(self)@.answers(Message::WallpaperDiscovered(image), command),
            old(self)@.well_formed() ==> final(self)@.well_formed(),
    {
        let index = self.images.len();
        self.images.push(image);
        if index >= self.visible_range.0 && index < self.visible_range.1 {
            Command::LoadVisibleThumbnails
        } else {
            Command::Idle
        }
    }

    fn scroll_to(&mut self, viewport: Viewport) -> (command: Command)
        ensures
            final(self)@ =~= old(self)@.step(Message::ScrolledTo(viewport)),
            old(self)@.answers(Message::ScrolledTo(viewport), command),
            old(self)@.well_formed() ==> final(self)@.well_formed(),
    {
        let ghost before = self@;
        let count = self.images.len();
        self.scroll_offset = viewport.offset_y;
        let window = load_window(viewport, ROW_HEIGHT, IMAGES_PER_ROW, LOAD_BUFFER, count);
        proof {
            lemma_window_in_list(
                viewport,
                ROW_HEIGHT as int,
                IMAGES_PER_ROW as int,
                LOAD_BUFFER as int,
                count as int,
            );
            assert(window == before.window_for(viewport));
        }
        if window.0 == self.visible_range.0 && window.1 == self.visible_range.1 {
            return Command::Idle;
        }
        self.visible_range = window;
        let mut index: usize = 0;
        while index < count
            invariant
                index <= count,
                count == before.images.len(),
                self.images.len() == count,
                self.visible_range == window,
                self.selected_idx == before.selected_idx,
                self.scroll_offset == viewport.offset_y,
                forall|i: int|
                    0 <= i < index ==> self.images[i] == before.unloaded_outside(window)[i],
                forall|i: int| index <= i < count ==> self.images[i] == before.images[i],
            decreases count - index,
        {
            if !keeps_thumbnail(index, window, UNLOAD_SLACK) {
                self.images[index].unload();
            }
            index += 1;
        }
        Command::LoadVisibleThumbnails
    }

    fn load_visible(&mut self) -> (command: Command)
        ensures
            final(self)@ =~= old(self)@.step(Message::LoadVisibleThumbnails),
            old(self)@.answers(Message::LoadVisibleThumbnails, command),
            old(self)@.well_formed() ==> final(self)@.well_formed(),
    {
        let ghost before = self@;
        let start = self.visible_range.0;
        let count = self.images.len();
        let end = if self.visible_range.1 < count {
            self.visible_range.1
        } else {
            count
        };
        let mut requests: Vec<ThumbnailRequest> = Vec::new();
        if end <= start {
            return Command::LoadThumbnails(requests);
        }
        let mut index: usize = start;
        while index < end
            invariant
                start <= index <= end <= count,
                count == before.images.len(),
                self.images.len() == count,
                self.visible_range == before.visible_range,
                self.selected_idx == before.selected_idx,
                self.scroll_offset == before.scroll_offset,
                forall|i: int|
                    start <= i < index ==> self.images[i] == before.images[i].requested(),
                forall|i: int| 0 <= i < start ==> self.images[i] == before.images[i],
                forall|i: int| index <= i < count ==> self.images[i] == before.images[i],
                requests@ == pending_requests(before.images, start as int, index as int),
            decreases end - index,
        {
            let path = self.images[index].thumbnail_path.clone();
            if self.images[index].request() {
                requests.push(ThumbnailRequest { index, thumbnail_path: path });
            }
            index += 1;
        }
        Command::LoadThumbnails(requests)
    }
}

/// Scrolling to the position that the view was last scrolled to changes
/// nothing and asks for nothing: no thumbnail is dropped and no load pass
/// starts.
pub proof fn lemma_repeated_scroll_is_idle<H>(state: AppViewModel<H>, viewport: Viewport)
    ensures
        ({
            let once = state.step(Message::<H>::ScrolledTo(viewport));
            &&& once.step(Message::<H>::ScrolledTo(viewport)) =~= once
            &&& once.answers(Message::<H>::ScrolledTo(viewport), Command::Idle)
        }),
{
    let once = state.step(Message::<H>::ScrolledTo(viewport));
    assert(once.images.len() == state.images.len());
    assert(once.window_for(viewport) == state.window_for(viewport));
    assert(once.visible_range == state.window_for(viewport));
}

/// A scroll event leaves alone every record that is no further than
/// `UNLOAD_SLACK` from the new load window: a thumbnail in memory there
/// stays in memory, though the record may lie outside the window.
pub proof fn lemma_scroll_keeps_within_slack<H>(
    state: AppViewModel<H>,
    viewport: Viewport,
    index: int,
)
    requires
        0 <= index < state.images.len(),
        distance(
            index,
            state.window_for(viewport).0 as int,
            state.window_for(viewport).1 as int,
        ) <= UNLOAD_SLACK,
    ensures
        state.step(Message::<H>::ScrolledTo(viewport)).images[index] == state.images[index],
{
    lemma_window_in_list(
        viewport,
        ROW_HEIGHT as int,
        IMAGES_PER_ROW as int,
        LOAD_BUFFER as int,
        state.images.len() as int,
    );
}

/// The same for the distance from what is on screen: a record of the list
/// between `LOAD_BUFFER` and `UNLOAD_SLACK` items away from the visible
/// items, or nearer, is left alone by a scroll event.
pub proof fn lemma_scroll_keeps_near_view<H>(
    state: AppViewModel<H>,
    viewport: Viewport,
    index: int,
)
    requires
        0 <= index < state.images.len(),
        distance(
            index,
            visible_start(viewport, ROW_HEIGHT as int, IMAGES_PER_ROW as int),
            visible_end(
                viewport,
                ROW_HEIGHT as int,
                IMAGES_PER_ROW as int,
                state.images.len() as int,
            ),
        ) <= UNLOAD_SLACK,
    ensures
        state.step(Message::<H>::ScrolledTo(viewport)).images[index] == state.images[index],
{
    let count = state.images.len() as int;
    lemma_window_in_list(
        viewport,
        ROW_HEIGHT as int,
        IMAGES_PER_ROW as int,
        LOAD_BUFFER as int,
        count,
    );
    lemma_near_view_within_slack(
        index,
        viewport,
        ROW_HEIGHT as int,
        IMAGES_PER_ROW as int,
        LOAD_BUFFER as int,
        UNLOAD_SLACK as int,
        count,
    );
}

/// A scroll event drops no thumbnail of a record inside the new load
/// window, and a load pass requests only records inside the window.
pub proof fn lemma_window_is_served<H>(state: AppViewModel<H>, viewport: Viewport, index: int)
    requires
        0 <= index < state.images.len(),
    ensures
        ({
            let after = state.step(Message::<H>::ScrolledTo(viewport));
            after.in_window(index) ==> after.images[index] == state.images[index]
        }),
        !state.in_window(index) ==> state.step(Message::<H>::LoadVisibleThumbnails).images[index]
            == state.images[index],
{
    lemma_window_in_list(
        viewport,
        ROW_HEIGHT as int,
        IMAGES_PER_ROW as int,
        LOAD_BUFFER as int,
        state.images.len() as int,
    );
}

/// Every update keeps the length of the list or adds one record at its
/// end; none removes or reorders records.
pub proof fn lemma_records_are_kept<H>(state: AppViewModel<H>, message: Message<H>, index: int)
    requires
        0 <= index < state.images.len(),
    ensures
        state.step(message).images.len() >= state.images.len(),
        state.step(message).images[index].name == state.images[index].name,
        state.step(message).images[index].img_path == state.images[index].img_path,
        state.step(message).images[index].thumbnail_path == state.images[index].thumbnail_path,
{
}

/// Every update keeps a well-formed state well-formed.
pub proof fn lemma_step_keeps_well_formed<H>(state: AppViewModel<H>, message: Message<H>)
    requires
        state.well_formed(),
    ensures
        state.step(message).well_formed(),
{
    match message {
        Message::ScrolledTo(viewport) => {
            lemma_window_in_list(
                viewport,
                ROW_HEIGHT as int,
                IMAGES_PER_ROW as int,
                LOAD_BUFFER as int,
                state.images.len() as int,
            );
        },
        _ => {},
    }
}

/// A scroll event puts the load window inside the list, and no later
/// update takes it out again.
pub proof fn lemma_window_stays_in_list<H>(state: AppViewModel<H>, message: Message<H>)
    ensures
        message is ScrolledTo ==> state.step(message).window_in_list(),
        state.window_in_list() ==> state.step(message).window_in_list(),
{
    match message {
        Message::ScrolledTo(viewport) => {
            lemma_window_in_list(
                viewport,
                ROW_HEIGHT as int,
                IMAGES_PER_ROW as int,
                LOAD_BUFFER as int,
                state.images.len() as int,
            );
        },
        _ => {},
    }
}

} // verus!
