//! The registry of decoders and the dispatch of one byte window to them.

use vstd::prelude::*;
use crate::report::{line_views, Line, LineView};
use crate::window::{contents, duplicate};

pub mod linux;
pub mod multiboot1;
pub mod multiboot2;

verus! {

/// The boot protocols that can be told apart.
#[derive(Clone, Copy, Debug, PartialEq, Eq, Structural)]
pub enum Protocol {
    Multiboot1,
    Multiboot2,
    Linux,
}

/// One entry of the registry: a protocol under its name, and the number of
/// leading bytes of an image within which its header must lie.
#[derive(Clone, Copy, Debug)]
pub struct Descriptor {
    pub name: &'static str,
    pub max_range: usize,
    pub protocol: Protocol,
}

/// A decoded header of one of the protocols.
#[derive(Debug, PartialEq, Eq)]
pub enum BootInfo {
    Multiboot1(multiboot1::Header),
    Multiboot2(multiboot2::Header),
    Linux(linux::Header),
}

/// The mathematical value of a [`BootInfo`].
pub enum BootInfoView {
    Multiboot1(multiboot1::Header),
    Multiboot2(multiboot2::HeaderView),
    Linux(linux::HeaderView),
}

impl View for BootInfo {
    type V = BootInfoView;

    open spec fn view(&self) -> BootInfoView {
        match *self {
            BootInfo::Multiboot1(header) => BootInfoView::Multiboot1(header),
            BootInfo::Multiboot2(header) => BootInfoView::Multiboot2(header@),
            BootInfo::Linux(header) => BootInfoView::Linux(header@),
        }
    }
}

impl BootInfoView {
    /// The lines that the header shows.
    pub open spec fn report(self) -> Seq<LineView> {
        match self {
            BootInfoView::Multiboot1(header) => header.report(),
            BootInfoView::Multiboot2(header) => header.report(),
            BootInfoView::Linux(header) => header.report(),
        }
    }
}

impl BootInfo {
    /// The lines that the header shows.
    pub fn lines(&self) -> (lines: Vec<Line>)
        ensures
            line_views(lines@) == self@.report(),
    {
        match self {
            BootInfo::Multiboot1(header) => header.lines(),
            BootInfo::Multiboot2(header) => header.lines(),
            BootInfo::Linux(header) => header.lines(),
        }
    }
}

/// What the decoder of `protocol` makes of the bytes `s`.
pub open spec fn decode_as(protocol: Protocol, s: Seq<u8>) -> Option<BootInfoView> {
    match protocol {
        Protocol::Multiboot1 => match multiboot1::decode(s) {
            Some(header) => Some(BootInfoView::Multiboot1(header)),
            None => None,
        },
        Protocol::Multiboot2 => match multiboot2::decode(s) {
            Some(header) => Some(BootInfoView::Multiboot2(header)),
            None => None,
        },
        Protocol::Linux => match linux::decode(s) {
            Some(header) => Some(BootInfoView::Linux(header)),
            None => None,
        },
    }
}

impl Descriptor {
    /// Runs the decoder of this entry on `buf`.
    pub fn parse(&self, buf: bytes::Bytes) -> (info: Option<BootInfo>)
        ensures
            match info {
                Some(info) => decode_as(self.protocol, contents(buf)) == Some(info@),
                None => decode_as(self.protocol, contents(buf)) is None,
            },
    {
        match self.protocol {
            Protocol::Multiboot1 => match multiboot1::Header::parse(buf) {
                Some(header) => Some(BootInfo::Multiboot1(header)),
                None => None,
            },
            Protocol::Multiboot2 => match multiboot2::Header::parse(buf) {
                Some(header) => Some(BootInfo::Multiboot2(header)),
                None => None,
            },
            Protocol::Linux => match linux::Header::parse(buf) {
                Some(header) => Some(BootInfo::Linux(header)),
                None => None,
            },
        }
    }
}

/// The registry: one entry for each protocol, in the order in which the
/// protocols are tried.
pub open spec fn registry() -> Seq<Descriptor> {
    seq![multiboot1::descriptor(), multiboot2::descriptor(), linux::descriptor()]
}

/// Builds the registry.
pub fn register() -> (descs: Vec<Descriptor>)
    ensures
        descs@ == registry(),
{
    let mut descs: Vec<Descriptor> = Vec::new();
    multiboot1::register(&mut descs);
    multiboot2::register(&mut descs);
    linux::register(&mut descs);
    assert(descs@ =~= registry());
    descs
}

/// The names in `names`, as sequences of characters.
pub open spec fn name_views(names: Seq<String>) -> Seq<Seq<char>> {
    Seq::new(names.len(), |i: int| names[i]@)
}

/// The test that an entry is named by one of `names`.
pub open spec fn named_in(names: Seq<Seq<char>>) -> spec_fn(Descriptor) -> bool {
    |desc: Descriptor| names.contains(desc.name@)
}

/// The entries of `descs` that a filter lets through, in their order: all of
/// them without a filter, else those whose name is one of the filter's. A
/// filter name that no entry has selects nothing.
pub open spec fn selected(descs: Seq<Descriptor>, only: Option<Seq<Seq<char>>>) -> Seq<Descriptor> {
    match only {
        Some(names) => descs.filter(named_in(names)),
        None => descs,
    }
}

/// The largest `max_range` among `descs`, and 0 when there is none.
pub open spec fn widest(descs: Seq<Descriptor>) -> int
    decreases descs.len(),
{
    if descs.len() == 0 {
        0
    } else if descs.last().max_range >= widest(descs.drop_last()) {
        descs.last().max_range as int
    } else {
        widest(descs.drop_last())
    }
}

/// The decoder of an entry, applied to the bytes `s`.
pub open spec fn decoder(s: Seq<u8>) -> spec_fn(Descriptor) -> Option<BootInfoView> {
    |desc: Descriptor| decode_as(desc.protocol, s)
}

/// The headers that the entries of `descs` find in the bytes `s`: one for
/// each entry whose decoder matches, in the order of the entries.
pub open spec fn matches(s: Seq<u8>, descs: Seq<Descriptor>) -> Seq<BootInfoView> {
    descs.filter_map(decoder(s))
}

/// The values of a sequence of headers, in order.
pub open spec fn info_views(infos: Seq<BootInfo>) -> Seq<BootInfoView> {
    Seq::new(infos.len(), |i: int| infos[i]@)
}

/// `part` can be had from `whole` by leaving elements out: what stays keeps
/// its order.
pub open spec fn is_subsequence<A>(part: Seq<A>, whole: Seq<A>) -> bool
    decreases whole.len(),
{
    if part.len() == 0 {
        true
    } else if whole.len() == 0 {
        false
    } else {
        (part.last() == whole.last() && is_subsequence(part.drop_last(), whole.drop_last())) || is_subsequence(
            part,
            whole.drop_last(),
        )
    }
}

/// `widest` is an upper bound of every `max_range`, and some entry attains it
/// unless there is none.
pub proof fn widest_is_largest(descs: Seq<Descriptor>)
    ensures
        forall|i: int| 0 <= i < descs.len() ==> (#[trigger] descs[i]).max_range <= widest(descs),
        descs.len() == 0 ==> widest(descs) == 0,
        descs.len() > 0 ==> exists|i: int| 0 <= i < descs.len() && (#[trigger] descs[i]).max_range == widest(descs),
    decreases descs.len(),
{
    if descs.len() > 0 {
        let front = descs.drop_last();
        widest_is_largest(front);
        assert forall|i: int| 0 <= i < descs.len() implies (#[trigger] descs[i]).max_range <= widest(descs) by {
            if i < front.len() {
                assert(front[i] == descs[i]);
            }
        }
        if descs.last().max_range >= widest(front) {
            assert(descs[descs.len() - 1].max_range == widest(descs));
        } else {
            let i = choose|i: int| 0 <= i < front.len() && (#[trigger] front[i]).max_range == widest(front);
            assert(descs[i] == front[i]);
        }
    }
}

/// Two results of a dispatch on the same bytes and the same entries are the
/// same sequence of headers.
pub proof fn dispatch_is_deterministic(
    s: Seq<u8>,
    descs: Seq<Descriptor>,
    first: Seq<BootInfoView>,
    second: Seq<BootInfoView>,
)
    requires
        first == matches(s, descs),
        second == matches(s, descs),
    ensures
        first == second,
{
}

/// What a dispatch finds through a filtered registry is a subsequence of what
/// it finds through the whole registry: a filter leaves headers out and
/// changes neither the others nor their order.
pub proof fn filter_keeps_order(s: Seq<u8>, descs: Seq<Descriptor>, only: Option<Seq<Seq<char>>>)
    ensures
        is_subsequence(matches(s, selected(descs, only)), matches(s, descs)),
    decreases descs.len(),
{
    match only {
        None => {
            subsequence_of_itself(matches(s, descs));
        },
        Some(names) => {
            reveal(Seq::filter);
            if descs.len() > 0 {
                let front = descs.drop_last();
                let last = descs.last();
                filter_keeps_order(s, front, only);
                assert(descs.take(descs.len() - 1) =~= front);
                descs.lemma_filter_map_take_succ(decoder(s), descs.len() - 1);
                assert(descs.take(descs.len() as int) =~= descs);
                let whole = matches(s, descs);
                let kept = selected(front, only);
                if named_in(names)(last) {
                    let chosen = kept.push(last);
                    assert(selected(descs, only) == chosen);
                    assert(chosen.take(chosen.len() - 1) =~= kept);
                    assert(chosen.take(chosen.len() as int) =~= chosen);
                    chosen.lemma_filter_map_take_succ(decoder(s), chosen.len() - 1);
                    let part = matches(s, chosen);
                    match decode_as(last.protocol, s) {
                        Some(info) => {
                            assert(part.drop_last() =~= matches(s, kept));
                            assert(whole.drop_last() =~= matches(s, front));
                        },
                        None => {},
                    }
                } else {
                    match decode_as(last.protocol, s) {
                        Some(info) => {
                            assert(whole.drop_last() =~= matches(s, front));
                        },
                        None => {},
                    }
                }
            }
        },
    }
}

/// Every sequence is a subsequence of itself.
pub proof fn subsequence_of_itself<A>(whole: Seq<A>)
    ensures
        is_subsequence(whole, whole),
    decreases whole.len(),
{
    if whole.len() > 0 {
        subsequence_of_itself(whole.drop_last());
    }
}

/// Whether `name` is one of `names`.
fn is_named(name: &str, names: &Vec<String>) -> (found: bool)
    ensures
        found == name_views(names@).contains(name@),
{
    let owned = name.to_owned();
    let mut i: usize = 0;
    while i < names.len()
        invariant
            i <= names.len(),
            owned@ == name@,
            forall|j: int| 0 <= j < i ==> name_views(names@)[j] != name@,
        decreases names.len() - i,
    {
        if owned == names[i] {
            assert(name_views(names@)[i as int] == name@);
            return true;
        }
        i = i + 1;
    }
    false
}

/// Narrows `descs` to the entries that the filter `only` names, keeping
/// their order; without a filter, all of them.
pub fn select(descs: &Vec<Descriptor>, only: Option<&Vec<String>>) -> (subset: Vec<Descriptor>)
    ensures
        subset@ == selected(
            descs@,
            match only {
                Some(names) => Some(name_views(names@)),
                None => None,
            },
        ),
{
    let mut subset: Vec<Descriptor> = Vec::new();
    let ghost keep = match only {
        Some(names) => named_in(name_views(names@)),
        None => |desc: Descriptor| true,
    };
    let mut i: usize = 0;
    proof {
        reveal(Seq::filter);
        assert(descs@.take(0).filter(keep) =~= Seq::empty());
    }
    while i < descs.len()
        invariant
            i <= descs.len(),
            keep == match only {
                Some(names) => named_in(name_views(names@)),
                None => |desc: Descriptor| true,
            },
            match only {
                Some(names) => subset@ == descs@.take(i as int).filter(keep),
                None => subset@ == descs@.take(i as int),
            },
        decreases descs.len() - i,
    {
        let desc = descs[i];
        let wanted = match only {
            Some(names) => is_named(desc.name, names),
            None => true,
        };
        proof {
            reveal(Seq::filter);
            assert(descs@.take(i + 1).drop_last() =~= descs@.take(i as int));
            assert(descs@.take(i + 1).last() == desc);
            assert(descs@.take(i + 1) =~= descs@.take(i as int).push(desc));
        }
        if wanted {
            subset.push(desc);
        }
        i = i + 1;
    }
    proof {
        assert(descs@.take(descs.len() as int) =~= descs@);
    }
    subset
}

/// The number of leading bytes of an image that the decoders of `subset`
/// need between them: the largest `max_range`, or 0 for no decoder.
pub fn max_window(subset: &Vec<Descriptor>) -> (range: usize)
    ensures
        range == widest(subset@),
{
    let mut range: usize = 0;
    let mut i: usize = 0;
    while i < subset.len()
        invariant
            i <= subset.len(),
            range == widest(subset@.take(i as int)),
        decreases subset.len() - i,
    {
        proof {
            assert(subset@.take(i + 1).drop_last() =~= subset@.take(i as int));
        }
        if subset[i].max_range >= range {
            range = subset[i].max_range;
        }
        i = i + 1;
    }
    proof {
        assert(subset@.take(subset.len() as int) =~= subset@);
    }
    range
}

/// Runs the decoder of each entry of `subset` on the same window and
/// collects what they find, in the order of the entries. Each decoder reads
/// through a cursor of its own.
pub fn dispatch(window: &bytes::Bytes, subset: &Vec<Descriptor>) -> (found: Vec<BootInfo>)
    ensures
        info_views(found@) == matches(contents(*window), subset@),
{
    let ghost s = contents(*window);
    let mut found: Vec<BootInfo> = Vec::new();
    let mut i: usize = 0;
    proof {
        assert(info_views(found@) =~= matches(s, subset@.take(0)));
    }
    while i < subset.len()
        invariant
            i <= subset.len(),
            s == contents(*window),
            info_views(found@) == matches(s, subset@.take(i as int)),
        decreases subset.len() - i,
    {
        let ghost before = info_views(found@);
        proof {
            subset@.lemma_filter_map_take_succ(decoder(s), i as int);
        }
        match subset[i].parse(duplicate(window)) {
            Some(info) => {
                found.push(info);
                proof {
                    assert(info_views(found@) =~= before + seq![info@]);
                }
            },
            None => {},
        }
        i = i + 1;
    }
    proof {
        assert(subset@.take(subset.len() as int) =~= subset@);
    }
    found
}

} // verus!
