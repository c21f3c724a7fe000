use crate::ident::{canonical, to_id};
use vstd::prelude::*;

verus! {

/// Key/value attributes of a container, in order.
pub struct Attributes {
    pub pairs: Vec<(String, String)>,
}

/// The containers that the heading transform reads or writes; any other
/// container is carried as `Other` with a handle chosen by the caller.
pub enum Container {
    Heading { level: u16, has_section: bool, id: String },
    Section { id: String },
    Link { dest: String },
    Other(usize),
}

/// One event of a parsed document; events that are no container boundary
/// are carried as `Other` with a handle chosen by the caller.
pub enum Event {
    Start(Container, Attributes),
    End(Container),
    Other(usize),
}

pub type AttributesView = Seq<(Seq<char>, Seq<char>)>;

pub enum ContainerView {
    Heading { level: u16, has_section: bool, id: Seq<char> },
    Section { id: Seq<char> },
    Link { dest: Seq<char> },
    Other(usize),
}

pub enum EventView {
    Start(ContainerView, AttributesView),
    End(ContainerView),
    Other(usize),
}

impl View for Attributes {
    type V = AttributesView;

    open spec fn view(&self) -> AttributesView {
        self.pairs@.map_values(|p: (String, String)| (p.0@, p.1@))
    }
}

impl View for Container {
    type V = ContainerView;

    open spec fn view(&self) -> ContainerView {
        match self {
            Container::Heading { level, has_section, id } => ContainerView::Heading {
                level: *level,
                has_section: *has_section,
                id: id@,
            },
            Container::Section { id } => ContainerView::Section { id: id@ },
            Container::Link { dest } => ContainerView::Link { dest: dest@ },
            Container::Other(h) => ContainerView::Other(*h),
        }
    }
}

impl View for Event {
    type V = EventView;

    open spec fn view(&self) -> EventView {
        match self {
            Event::Start(c, a) => EventView::Start(c@, a@),
            Event::End(c) => EventView::End(c@),
            Event::Other(h) => EventView::Other(*h),
        }
    }
}

pub open spec fn events_view(s: Seq<Event>) -> Seq<EventView> {
    s.map_values(|e: Event| e@)
}

/// A heading start whose events are being held until its end arrives.
pub struct PendingView {
    pub level: u16,
    pub has_section: bool,
    pub id: Seq<char>,
    pub attrs: AttributesView,
    pub buffered: Seq<EventView>,
}

/// Attributes of the anchor link put into each heading.
pub open spec fn anchor_attrs() -> AttributesView {
    seq![("class"@, "heading-ref"@)]
}

/// The events that replace a complete heading: the heading one level deeper
/// with its canonical id, then a link to that id around the held content.
pub open spec fn heading_output(p: PendingView) -> Seq<EventView> {
    let id = canonical(p.id);
    let heading = ContainerView::Heading { level: (p.level + 1) as u16, has_section: p.has_section, id };
    let link = ContainerView::Link { dest: seq!['#'] + id };
    seq![EventView::Start(heading, p.attrs), EventView::Start(link, anchor_attrs())] + p.buffered
        + seq![EventView::End(link), EventView::End(heading)]
}

/// One step of the transform: the next state and the events it emits.
pub open spec fn step(state: Option<PendingView>, e: EventView) -> (Option<PendingView>, Seq<EventView>) {
    match state {
        None => match e {
            EventView::Start(ContainerView::Heading { level, has_section, id }, attrs) => (
                Some(PendingView { level, has_section, id, attrs, buffered: Seq::empty() }),
                Seq::empty(),
            ),
            EventView::Start(ContainerView::Section { id }, attrs) => (
                None,
                seq![EventView::Start(ContainerView::Section { id: canonical(id) }, attrs)],
            ),
            EventView::End(ContainerView::Section { id }) => (
                None,
                seq![EventView::End(ContainerView::Section { id: canonical(id) })],
            ),
            _ => (None, seq![e]),
        },
        Some(p) => match e {
            EventView::End(ContainerView::Heading { .. }) => (None, heading_output(p)),
            _ => (
                Some(PendingView { buffered: p.buffered.push(e), ..p }),
                Seq::empty(),
            ),
        },
    }
}

/// The state after a whole stream and everything emitted on the way.
pub open spec fn run(s: Seq<EventView>) -> (Option<PendingView>, Seq<EventView>)
    decreases s.len(),
{
    if s.len() == 0 {
        (None, Seq::empty())
    } else {
        let prev = run(s.drop_last());
        let next = step(prev.0, s.last());
        (next.0, prev.1 + next.1)
    }
}

/// Heading levels must leave room for the added level.
pub open spec fn level_ok(e: EventView) -> bool {
    match e {
        EventView::Start(ContainerView::Heading { level, .. }, _) => level < u16::MAX,
        _ => true,
    }
}

struct PendingHeading {
    level: u16,
    has_section: bool,
    id: String,
    attrs: Attributes,
    buffered: Vec<Event>,
}

/// Rewrites headings and sections of an event stream: section ids are made
/// canonical, each heading goes one level deeper, gets its canonical id and
/// a link to itself around its content. Events are fed one at a time.
pub struct TransformHeaders {
    pending: Option<PendingHeading>,
}

impl TransformHeaders {
    pub closed spec fn state(&self) -> Option<PendingView> {
        match &self.pending {
            None => None,
            Some(p) => Some(
                PendingView {
                    level: p.level,
                    has_section: p.has_section,
                    id: p.id@,
                    attrs: p.attrs@,
                    buffered: events_view(p.buffered@),
                },
            ),
        }
    }

    /// A held heading leaves room for the added level.
    pub open spec fn wf(&self) -> bool {
        self.state() is Some ==> self.state()->0.level < u16::MAX
    }

    pub fn new() -> (r: Self)
        ensures
            r.state() is None,
            r.wf(),
    {
        TransformHeaders { pending: None }
    }

    /// Whether a heading has started and not yet ended; a stream that ends
    /// here was cut inside a heading, whose events are dropped.
    pub fn inside_heading(&self) -> (r: bool)
        ensures
            r == self.state() is Some,
    {
        self.pending.is_some()
    }

    /// Feeds one event and returns the events that are ready.
    pub fn push(&mut self, e: Event) -> (out: Vec<Event>)
        requires
            old(self).wf(),
            level_ok(e@),
        ensures
            final(self).wf(),
            (final(self).state(), events_view(out@)) == step(old(self).state(), e@),
    {
        let pending = self.pending.take();
        match pending {
            None => match e {
                Event::Start(Container::Heading { level, has_section, id }, attrs) => {
                    self.pending = Some(
                        PendingHeading { level, has_section, id, attrs, buffered: Vec::new() },
                    );
                    proof {
                        assert(events_view(Seq::<Event>::empty()) =~= Seq::<EventView>::empty());
                    }
                    let out: Vec<Event> = Vec::new();
                    proof {
                        assert(events_view(out@) =~= Seq::<EventView>::empty());
                    }
                    out
                },
                Event::Start(Container::Section { id }, attrs) => {
                    let mut out: Vec<Event> = Vec::new();
                    out.push(Event::Start(Container::Section { id: to_id(id.as_str()) }, attrs));
                    proof {
                        assert(events_view(out@) =~= step(old(self).state(), e@).1);
                    }
                    out
                },
                Event::End(Container::Section { id }) => {
                    let mut out: Vec<Event> = Vec::new();
                    out.push(Event::End(Container::Section { id: to_id(id.as_str()) }));
                    proof {
                        assert(events_view(out@) =~= step(old(self).state(), e@).1);
                    }
                    out
                },
                other => {
                    let mut out: Vec<Event> = Vec::new();
                    out.push(other);
                    proof {
                        assert(events_view(out@) =~= step(old(self).state(), e@).1);
                    }
                    out
                },
            },
            Some(mut p) => match e {
                Event::End(Container::Heading { .. }) => {
                    let out = finish_heading(p);
                    out
                },
                other => {
                    let ghost before = p.buffered@;
                    p.buffered.push(other);
                    proof {
                        assert(events_view(p.buffered@) =~= events_view(before).push(e@));
                    }
                    self.pending = Some(p);
                    let out: Vec<Event> = Vec::new();
                    proof {
                        assert(events_view(out@) =~= Seq::<EventView>::empty());
                    }
                    out
                },
            },
        }
    }
}

/// Transforms a whole event stream. A stream that ends inside a heading ends
/// there: the held events of that heading are not emitted.
pub fn transform_headers(events: Vec<Event>) -> (r: Vec<Event>)
    requires
        forall|i: int| 0 <= i < events@.len() ==> level_ok(#[trigger] events@[i]@),
    ensures
        events_view(r@) == run(events_view(events@)).1,
{
    let ghost all = events_view(events@);
    let mut t = TransformHeaders::new();
    let mut r: Vec<Event> = Vec::new();
    for e in it: events
        invariant
            all == events_view(it.seq()),
            t.wf(),
            (t.state(), events_view(r@)) == run(all.take(it.index() as int)),
            forall|i: int| 0 <= i < it.seq().len() ==> level_ok(#[trigger] it.seq()[i]@),
    {
        let ghost n = it.index() as int;
        proof {
            assert(all.take(n + 1).drop_last() =~= all.take(n));
            assert(it.seq()[n] == e);
        }
        let ghost before = r@;
        let mut out = t.push(e);
        r.append(&mut out);
        proof {
            assert(events_view(r@) =~= events_view(before) + step(run(all.take(n)).0, e@).1);
        }
    }
    proof {
        assert(all.take(all.len() as int) =~= all);
    }
    r
}

fn finish_heading(p: PendingHeading) -> (out: Vec<Event>)
    requires
        p.level < u16::MAX,
    ensures
        events_view(out@) == heading_output(
            PendingView {
                level: p.level,
                has_section: p.has_section,
                id: p.id@,
                attrs: p.attrs@,
                buffered: events_view(p.buffered@),
            },
        ),
{
    let PendingHeading { level, has_section, id, attrs, mut buffered } = p;
    let id = to_id(id.as_str());
    let level = level + 1;
    let dest = String::from_str("#").concat(id.as_str());
    let mut anchor: Vec<(String, String)> = Vec::new();
    anchor.push((String::from_str("class"), String::from_str("heading-ref")));
    let mut out: Vec<Event> = Vec::new();
    out.push(Event::Start(Container::Heading { level, has_section, id: id.clone() }, attrs));
    out.push(Event::Start(Container::Link { dest: dest.clone() }, Attributes { pairs: anchor }));
    let ghost head = out@;
    let ghost inner = buffered@;
    out.append(&mut buffered);
    out.push(Event::End(Container::Link { dest }));
    out.push(Event::End(Container::Heading { level, has_section, id }));
    proof {
        reveal_strlit("#");
        let pv = PendingView {
            level: p.level,
            has_section: p.has_section,
            id: p.id@,
            attrs: p.attrs@,
            buffered: events_view(p.buffered@),
        };
        let ho = heading_output(pv);
        assert(dest@ =~= seq!['#'] + canonical(p.id@));
        assert(anchor_attrs() =~= out@[1]->Start_1@);
        assert(out@.len() == inner.len() + 4);
        assert(events_view(out@)[0] == ho[0]);
        assert(events_view(out@)[1] == ho[1]);
        assert forall|i: int| 0 <= i < inner.len() implies #[trigger] events_view(out@)[i + 2] == ho[i + 2] by {
            assert(out@[i + 2] == inner[i]);
        }
        assert(events_view(out@)[inner.len() as int + 2] == ho[inner.len() as int + 2]);
        assert(events_view(out@)[inner.len() as int + 3] == ho[inner.len() as int + 3]);
        assert(events_view(out@) =~= heading_output(
            PendingView {
                level: p.level,
                has_section: p.has_section,
                id: p.id@,
                attrs: p.attrs@,
                buffered: events_view(p.buffered@),
            },
        ));
    }
    out
}

} // verus!
