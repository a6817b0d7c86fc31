//! The drawing board's state: the points kept, those still to draw and those
//! still to send; whether the pen is down; the brush and the open tool box;
//! and how each point is drawn. The points themselves (their coordinates)
//! belong to the application, so the board is generic over them.

use vstd::prelude::*;

verus! {

broadcast use vstd::string::group_string_axioms;

/// Which tool box is open.
#[derive(Clone, Copy, Debug, PartialEq, Eq, Structural)]
pub enum ToolBoxOpen {
    Brush,
    Eraser,
    Color,
    Closed,
}

/// A pointer or touch event on the board.
#[derive(Clone, Copy, Debug, PartialEq, Eq, Structural)]
pub enum PenEvent {
    MouseDown,
    MouseUp,
    MouseMove,
    MouseExit,
    TouchStart,
    TouchEnd,
    TouchMove,
}

/// What a recorded point carries besides its coordinates.
pub struct PointStyle {
    /// Its position among all the points of the board.
    pub id: u32,
    pub line_width: u32,
    /// Joined to the point before it.
    pub draw: bool,
    pub color: String,
    pub eraser: bool,
}

/// The board.
pub struct DrawWidget<P> {
    pub points: Vec<P>,
    pub todraw: Vec<P>,
    pub tosend: Vec<P>,
    pub pressed: bool,
    pub toolboxopen: ToolBoxOpen,
    pub current_color: String,
    pub current_width: u32,
    pub is_eraser: bool,
}

/// What one tick of the send timer asks of the application.
pub struct SendTick<P> {
    /// Points to draw now.
    pub draw: Vec<P>,
    /// Points to send to the server now.
    pub send: Option<Vec<P>>,
    /// Redraw the board.
    pub render: bool,
}

/// `b` is a copy of `a`, element by element.
pub open spec fn copies<P: Clone>(a: Seq<P>, b: Seq<P>) -> bool {
    a.len() == b.len() && forall|i: int| 0 <= i < a.len() ==> cloned::<P>(a[i], b[i])
}

fn copy_vec<P: Clone>(v: &Vec<P>) -> (r: Vec<P>)
    ensures
        copies(v@, r@),
{
    let r = v.clone();
    r
}

/// The point an event records, as its `draw` flag (whether it is joined to
/// the point before it), or none; and whether the pen is down after it.
pub open spec fn pen_spec(pressed: bool, ev: PenEvent, has_context: bool) -> (Option<bool>, bool) {
    match ev {
        PenEvent::MouseDown | PenEvent::TouchStart => if has_context {
            (Some(false), true)
        } else {
            (None, pressed)
        },
        PenEvent::MouseUp => if has_context {
            (Some(true), false)
        } else {
            (None, pressed)
        },
        PenEvent::TouchEnd => if has_context {
            (Some(false), false)
        } else {
            (None, pressed)
        },
        PenEvent::MouseMove | PenEvent::TouchMove => if has_context && pressed {
            (Some(true), pressed)
        } else {
            (None, pressed)
        },
        PenEvent::MouseExit => (None, false),
    }
}

impl<P> DrawWidget<P> {
    /// The brush and the tool box are as in `other`.
    pub open spec fn same_tools(&self, other: &DrawWidget<P>) -> bool {
        &&& self.toolboxopen == other.toolboxopen
        &&& self.current_color@ == other.current_color@
        &&& self.current_width == other.current_width
        &&& self.is_eraser == other.is_eraser
    }

    /// Only the eraser changed from `before`: it was flipped.
    pub open spec fn eraser_toggled(&self, before: &DrawWidget<P>) -> bool {
        &&& self.is_eraser == !before.is_eraser
        &&& self.toolboxopen == before.toolboxopen
        &&& self.current_color@ == before.current_color@
        &&& self.current_width == before.current_width
        &&& self.pressed == before.pressed
        &&& self.same_points(before)
    }

    /// The three lists of points are as in `other`.
    pub open spec fn same_points(&self, other: &DrawWidget<P>) -> bool {
        &&& self.points@ == other.points@
        &&& self.todraw@ == other.todraw@
        &&& self.tosend@ == other.tosend@
    }
}

impl<P: Clone> DrawWidget<P> {
    /// The board with the strokes drawn so far, nothing to draw or send; the
    /// pen up, a black brush two pixels wide, no tool box open.
    pub fn create(initialpoints: Vec<P>) -> (b: DrawWidget<P>)
        ensures
            b.points@ == initialpoints@,
            b.todraw@.len() == 0,
            b.tosend@.len() == 0,
            !b.pressed,
            b.toolboxopen == ToolBoxOpen::Closed,
            b.current_color@ == "black"@,
            b.current_width == 2,
            !b.is_eraser,
    {
        DrawWidget {
            points: initialpoints,
            todraw: Vec::new(),
            tosend: Vec::new(),
            pressed: false,
            toolboxopen: ToolBoxOpen::Closed,
            current_color: "black".to_owned(),
            current_width: 2,
            is_eraser: false,
        }
    }

    /// Opens a tool box (`SetToolBox`).
    pub fn set_toolbox(&mut self, tool: ToolBoxOpen)
        ensures
            final(self).toolboxopen == tool,
            final(self).current_color@ == old(self).current_color@,
            final(self).current_width == old(self).current_width,
            final(self).is_eraser == old(self).is_eraser,
            final(self).pressed == old(self).pressed,
            final(self).same_points(old(self)),
    {
        self.toolboxopen = tool;
    }

    /// Picks a colour and closes the tool box (`SetColor`).
    pub fn set_color(&mut self, color: String)
        ensures
            final(self).current_color == color,
            final(self).toolboxopen == ToolBoxOpen::Closed,
            final(self).current_width == old(self).current_width,
            final(self).is_eraser == old(self).is_eraser,
            final(self).pressed == old(self).pressed,
            final(self).same_points(old(self)),
    {
        self.current_color = color;
        self.toolboxopen = ToolBoxOpen::Closed;
    }

    /// Picks a width and closes the tool box (`SetSize`).
    pub fn set_size(&mut self, size: u32)
        ensures
            final(self).current_width == size,
            final(self).toolboxopen == ToolBoxOpen::Closed,
            final(self).current_color@ == old(self).current_color@,
            final(self).is_eraser == old(self).is_eraser,
            final(self).pressed == old(self).pressed,
            final(self).same_points(old(self)),
    {
        self.current_width = size;
        self.toolboxopen = ToolBoxOpen::Closed;
    }

    /// Switches between drawing and erasing (`ToggleEraser`).
    pub fn toggle_eraser(&mut self)
        ensures
            final(self).eraser_toggled(old(self)),
    {
        self.is_eraser = !self.is_eraser;
    }

    /// The id of the next point: the number of points, cut to 32 bits
    /// (`points.len() as u32`).
    pub fn next_point_id(&self) -> (id: u32)
        ensures
            id == self.points@.len() as u32,
    {
        let n = self.points.len();
        #[verifier::truncate]
        (n as u32)
    }

    /// Takes a pointer or touch event; `has_context` tells whether the board
    /// can be drawn on. Gives back what the point to record carries, if the
    /// event records one: the next id, the brush's width, colour and eraser,
    /// and whether it is joined to the point before it (`mousedown`,
    /// `mouseup`, `mousemove`, `touchstart`, `touchend`, `touchmove`; and
    /// `MouseExit`, which only lifts the pen).
    pub fn pen(&mut self, ev: PenEvent, has_context: bool) -> (r: Option<PointStyle>)
        ensures
            final(self).pressed == pen_spec(old(self).pressed, ev, has_context).1,
            match (r, pen_spec(old(self).pressed, ev, has_context).0) {
                (Some(s), Some(d)) => {
                    &&& s.draw == d
                    &&& s.id == old(self).points@.len() as u32
                    &&& s.line_width == old(self).current_width
                    &&& s.color@ == old(self).current_color@
                    &&& s.eraser == old(self).is_eraser
                },
                (None, None) => true,
                _ => false,
            },
            final(self).same_tools(old(self)),
            final(self).same_points(old(self)),
    {
        let flag = match ev {
            PenEvent::MouseDown | PenEvent::TouchStart => {
                if has_context {
                    self.pressed = true;
                    Some(false)
                } else {
                    None
                }
            },
            PenEvent::MouseUp => {
                if has_context {
                    self.pressed = false;
                    Some(true)
                } else {
                    None
                }
            },
            PenEvent::TouchEnd => {
                if has_context {
                    self.pressed = false;
                    Some(false)
                } else {
                    None
                }
            },
            PenEvent::MouseMove | PenEvent::TouchMove => {
                if has_context && self.pressed {
                    Some(true)
                } else {
                    None
                }
            },
            PenEvent::MouseExit => {
                self.pressed = false;
                None
            },
        };
        match flag {
            Some(draw) => Some(
                PointStyle {
                    id: self.next_point_id(),
                    line_width: self.current_width,
                    draw,
                    color: self.current_color.clone(),
                    eraser: self.is_eraser,
                },
            ),
            None => None,
        }
    }

    /// A point of the player's own: it is kept, to be drawn and to be sent
    /// (`set_point`).
    pub fn set_point(&mut self, point: &P)
        ensures
            final(self).points@.len() == old(self).points@.len() + 1,
            final(self).points@.drop_last() == old(self).points@,
            cloned::<P>(*point, final(self).points@.last()),
            final(self).todraw@.drop_last() == old(self).todraw@,
            final(self).todraw@.len() == old(self).todraw@.len() + 1,
            cloned::<P>(*point, final(self).todraw@.last()),
            final(self).tosend@.drop_last() == old(self).tosend@,
            final(self).tosend@.len() == old(self).tosend@.len() + 1,
            cloned::<P>(*point, final(self).tosend@.last()),
            final(self).pressed == old(self).pressed,
            final(self).same_tools(old(self)),
    {
        let a = point.clone();
        let b = point.clone();
        let c = point.clone();
        self.tosend.push(a);
        self.todraw.push(b);
        self.points.push(c);
        assert(self.points@.drop_last() =~= old(self).points@);
        assert(self.todraw@.drop_last() =~= old(self).todraw@);
        assert(self.tosend@.drop_last() =~= old(self).tosend@);
    }

    /// Points that another player drew: kept and to be drawn (`SetData`).
    pub fn set_data(&mut self, data: Vec<P>)
        ensures
            final(self).points@.len() == old(self).points@.len() + data@.len(),
            final(self).points@.take(old(self).points@.len() as int) == old(self).points@,
            copies(data@, final(self).points@.skip(old(self).points@.len() as int)),
            final(self).todraw@ == old(self).todraw@ + data@,
            final(self).tosend@ == old(self).tosend@,
            final(self).pressed == old(self).pressed,
            final(self).same_tools(old(self)),
    {
        let mut copy = copy_vec(&data);
        let ghost cv = copy@;
        self.points.append(&mut copy);
        let mut data = data;
        self.todraw.append(&mut data);
        assert(self.points@.take(old(self).points@.len() as int) =~= old(self).points@);
        assert(self.points@.skip(old(self).points@.len() as int) =~= cv);
    }

    /// Hands over the points still to draw (`draw`).
    pub fn take_todraw(&mut self) -> (d: Vec<P>)
        ensures
            d@ == old(self).todraw@,
            final(self).todraw@.len() == 0,
            final(self).points@ == old(self).points@,
            final(self).tosend@ == old(self).tosend@,
            final(self).pressed == old(self).pressed,
            final(self).same_tools(old(self)),
    {
        let mut d: Vec<P> = Vec::new();
        std::mem::swap(&mut d, &mut self.todraw);
        d
    }

    /// Everything is to be drawn again (`resetcanvas`).
    pub fn reset(&mut self)
        ensures
            copies(old(self).points@, final(self).todraw@),
            final(self).points@ == old(self).points@,
            final(self).tosend@ == old(self).tosend@,
            final(self).pressed == old(self).pressed,
            final(self).same_tools(old(self)),
    {
        self.todraw = copy_vec(&self.points);
    }

    /// The board is wiped (`ClearDoc`).
    pub fn clear_doc(&mut self)
        ensures
            final(self).points@.len() == 0,
            final(self).todraw@.len() == 0,
            final(self).tosend@ == old(self).tosend@,
            final(self).pressed == old(self).pressed,
            final(self).same_tools(old(self)),
    {
        self.points.clear();
        self.reset();
    }

    /// One tick of the send timer: what is pending is drawn; what is
    /// pending to send is sent, and the board is redrawn only when there was
    /// nothing to send (`SendData`).
    pub fn send_tick(&mut self) -> (t: SendTick<P>)
        ensures
            t.draw@ == old(self).todraw@,
            final(self).todraw@.len() == 0,
            final(self).points@ == old(self).points@,
            final(self).tosend@.len() == 0,
            if old(self).tosend@.len() == 0 {
                t.render && t.send is None
            } else {
                !t.render && (t.send matches Some(s) && s@ == old(self).tosend@)
            },
            final(self).pressed == old(self).pressed,
            final(self).same_tools(old(self)),
    {
        let draw = self.take_todraw();
        if self.tosend.len() == 0 {
            SendTick { draw, send: None, render: true }
        } else {
            let mut s: Vec<P> = Vec::new();
            std::mem::swap(&mut s, &mut self.tosend);
            SendTick { draw, send: Some(s), render: false }
        }
    }
}

/// A message of the board that touches neither the canvas nor the pointer.
pub enum Msg<P> {
    SetToolBox(ToolBoxOpen),
    SetColor(String),
    SetSize(u32),
    ToggleEraser,
    ClearDoc,
    SetData(Vec<P>),
}

/// What the open tool box offers.
pub enum ToolBox {
    /// No tool box shows.
    Hidden,
    /// The brush widths to pick from.
    Sizes(Vec<u32>),
    /// The colours to pick from.
    Colors(Vec<String>),
}

/// The brush widths that the brush tool box offers.
pub open spec fn brush_sizes() -> Seq<u32> {
    seq![2, 5, 10, 15, 20]
}

/// The colours that the colour tool box offers.
pub open spec fn palette() -> Seq<Seq<char>> {
    seq!["black"@, "red"@, "green"@, "blue"@, "yellow"@]
}

impl<P: Clone> DrawWidget<P> {
    /// Takes one message; gives back whether to redraw (`update`). The
    /// pointer, the wheel, the send timer and the canvas stay with the
    /// application.
    pub fn update(&mut self, msg: Msg<P>) -> (render: bool)
        ensures
            match msg {
                Msg::SetToolBox(t) => {
                    &&& render
                    &&& final(self).toolboxopen == t
                    &&& final(self).current_color@ == old(self).current_color@
                    &&& final(self).current_width == old(self).current_width
                    &&& final(self).is_eraser == old(self).is_eraser
                    &&& final(self).pressed == old(self).pressed
                    &&& final(self).same_points(old(self))
                },
                Msg::SetColor(c) => {
                    &&& render
                    &&& final(self).current_color == c
                    &&& final(self).toolboxopen == ToolBoxOpen::Closed
                    &&& final(self).current_width == old(self).current_width
                    &&& final(self).is_eraser == old(self).is_eraser
                    &&& final(self).pressed == old(self).pressed
                    &&& final(self).same_points(old(self))
                },
                Msg::SetSize(n) => {
                    &&& render
                    &&& final(self).current_width == n
                    &&& final(self).toolboxopen == ToolBoxOpen::Closed
                    &&& final(self).current_color@ == old(self).current_color@
                    &&& final(self).is_eraser == old(self).is_eraser
                    &&& final(self).pressed == old(self).pressed
                    &&& final(self).same_points(old(self))
                },
                Msg::ToggleEraser => render && final(self).eraser_toggled(old(self)),
                Msg::ClearDoc => {
                    &&& !render
                    &&& final(self).points@.len() == 0
                    &&& final(self).todraw@.len() == 0
                    &&& final(self).tosend@ == old(self).tosend@
                    &&& final(self).pressed == old(self).pressed
                    &&& final(self).same_tools(old(self))
                },
                Msg::SetData(d) => {
                    &&& !render
                    &&& final(self).points@.len() == old(self).points@.len() + d@.len()
                    &&& final(self).points@.take(old(self).points@.len() as int) == old(self).points@
                    &&& copies(d@, final(self).points@.skip(old(self).points@.len() as int))
                    &&& final(self).todraw@ == old(self).todraw@ + d@
                    &&& final(self).tosend@ == old(self).tosend@
                    &&& final(self).pressed == old(self).pressed
                    &&& final(self).same_tools(old(self))
                },
            },
    {
        match msg {
            Msg::SetToolBox(t) => {
                self.set_toolbox(t);
                true
            },
            Msg::SetColor(c) => {
                self.set_color(c);
                true
            },
            Msg::SetSize(n) => {
                self.set_size(n);
                true
            },
            Msg::ToggleEraser => {
                self.toggle_eraser();
                true
            },
            Msg::ClearDoc => {
                self.clear_doc();
                false
            },
            Msg::SetData(d) => {
                self.set_data(d);
                false
            },
        }
    }

    /// What the open tool box offers: the widths for the brush box, the
    /// colours for the colour box, nothing otherwise.
    pub fn toolbox(&self) -> (t: ToolBox)
        ensures
            match self.toolboxopen {
                ToolBoxOpen::Brush => t matches ToolBox::Sizes(v) && v@ == brush_sizes(),
                ToolBoxOpen::Color => t matches ToolBox::Colors(v) && v@.map_values(|c: String| c@) == palette(),
                _ => t is Hidden,
            },
    {
        match self.toolboxopen {
            ToolBoxOpen::Brush => {
                let v: Vec<u32> = vec![2, 5, 10, 15, 20];
                assert(v@ =~= brush_sizes());
                ToolBox::Sizes(v)
            },
            ToolBoxOpen::Color => {
                let v: Vec<String> = vec![
                    "black".to_owned(),
                    "red".to_owned(),
                    "green".to_owned(),
                    "blue".to_owned(),
                    "yellow".to_owned(),
                ];
                assert(v@.map_values(|c: String| c@) =~= palette());
                ToolBox::Colors(v)
            },
            _ => ToolBox::Hidden,
        }
    }
}

/// Toggling the eraser twice gives back the board as it was: the eraser,
/// the brush, the tool box, the pen and the points.
pub proof fn lemma_toggle_twice_restores<P>(a: DrawWidget<P>, b: DrawWidget<P>, c: DrawWidget<P>)
    requires
        b.eraser_toggled(&a),
        c.eraser_toggled(&b),
    ensures
        c.is_eraser == a.is_eraser,
        c.same_tools(&a),
        c.pressed == a.pressed,
        c.same_points(&a),
{
}

/// How one point is drawn.
#[derive(Clone, Copy, Debug, PartialEq, Eq, Structural)]
pub enum StrokeStep {
    /// Move the pen to the point; wipe the board first when `clear`.
    MoveTo { clear: bool },
    /// Draw a line to the point, in white when `white`, else in the point's
    /// colour, and start a new path there.
    LineTo { white: bool },
}

/// The first point of a drawing wipes the board; a point that starts a
/// stroke moves the pen; any other point draws a line (`draw`).
pub fn stroke_step(id: u32, draw: bool, eraser: bool) -> (s: StrokeStep)
    ensures
        s == (if id == 0 || !draw {
            StrokeStep::MoveTo { clear: id == 0 }
        } else {
            StrokeStep::LineTo { white: eraser }
        }),
{
    if id == 0 || !draw {
        StrokeStep::MoveTo { clear: id == 0 }
    } else {
        StrokeStep::LineTo { white: eraser }
    }
}

/// A moving pointer records a point only while the pen is down; lifting or
/// leaving puts the pen up; a press puts it down when the board is ready.
pub proof fn lemma_pen_moves_draw_only_when_pressed(pressed: bool, ev: PenEvent, has_context: bool)
    ensures
        (ev == PenEvent::MouseMove || ev == PenEvent::TouchMove) ==> (pen_spec(pressed, ev, has_context).0 is Some
            <==> pressed && has_context),
        (ev == PenEvent::MouseExit) ==> !pen_spec(pressed, ev, has_context).1,
        (ev == PenEvent::MouseUp || ev == PenEvent::TouchEnd) && has_context ==> !pen_spec(
            pressed,
            ev,
            has_context,
        ).1,
        (ev == PenEvent::MouseDown || ev == PenEvent::TouchStart) && has_context ==> pen_spec(
            pressed,
            ev,
            has_context,
        ).1,
{
}

/// Nothing is drawn before the board is ready: without a drawing context no
/// event records a point or puts the pen down.
pub proof fn lemma_no_context_no_points(pressed: bool, ev: PenEvent)
    ensures
        pen_spec(pressed, ev, false).0 is None,
        pen_spec(pressed, ev, false).1 ==> pressed,
{
}

} // verus!
