//! The way from a graphics card to a screen: which card, which connector, and which CRTC.

use vstd::prelude::*;

use crate::display::formats::list_contains;

verus! {

/// What the names of the device nodes of graphics cards begin with.
pub const CARD_PREFIX: &'static str = "card";

/// An encoder of a card.
#[derive(Debug)]
pub struct Encoder {
    /// The CRTC that feeds the encoder now.
    pub crtc: Option<u32>,
    /// The CRTCs that can feed it, in the order of the card.
    pub possible_crtcs: Vec<u32>,
}

/// A connector of a card.
#[derive(Debug)]
pub struct Connector {
    /// Whether a screen is plugged in.
    pub connected: bool,
    /// The sizes of the modes of the screen, in the order of the card. The first one is used.
    pub modes: Vec<(u16, u16)>,
    /// The encoder in use, where there is one that can be read.
    pub current_encoder: Option<Encoder>,
    /// The encoders that can be used, `None` where one could not be read.
    pub encoders: Vec<Option<Encoder>>,
}

/// A connector, by its place in the list, with a CRTC that can feed it.
#[derive(Clone, Copy, Debug, PartialEq, Eq)]
pub struct Setup {
    pub connector: usize,
    pub crtc: u32,
    /// The size of the mode.
    pub size: (u32, u32),
}

impl Encoder {
    /// The CRTC that feeds the encoder now, where it can go on doing so.
    pub open spec fn kept_crtc(self) -> Option<u32> {
        match self.crtc {
            Some(crtc) if self.possible_crtcs@.contains(crtc) => Some(crtc),
            _ => None,
        }
    }
}

/// The first CRTC that can feed one of the encoders, by the order of the encoders.
pub open spec fn first_crtc(encoders: Seq<Option<Encoder>>) -> Option<u32>
    decreases encoders.len(),
{
    if encoders.len() == 0 {
        None
    } else {
        match encoders[0] {
            Some(encoder) if encoder.possible_crtcs@.len() > 0 => Some(encoder.possible_crtcs@[0]),
            _ => first_crtc(encoders.drop_first()),
        }
    }
}

impl Connector {
    /// The CRTC to feed the connector with: the present one if it can be kept.
    pub open spec fn chosen_crtc(self) -> Option<u32> {
        let kept = match self.current_encoder {
            Some(encoder) => encoder.kept_crtc(),
            None => None,
        };
        if !self.connected || self.modes@.len() == 0 {
            None
        } else if kept is Some {
            kept
        } else {
            first_crtc(self.encoders@)
        }
    }

    /// The CRTC to feed the connector with, where there is one.
    fn choose_crtc(&self) -> (crtc: Option<u32>)
        ensures
            crtc == self.chosen_crtc(),
    {
        if !self.connected || self.modes.len() == 0 {
            return None;
        }
        if let Some(encoder) = &self.current_encoder {
            if let Some(crtc) = encoder.crtc {
                if list_contains(&encoder.possible_crtcs, crtc) {
                    return Some(crtc);
                }
            }
        }
        assert(self.encoders@.skip(0) =~= self.encoders@);
        for i in 0..self.encoders.len()
            invariant
                first_crtc(self.encoders@) == first_crtc(self.encoders@.skip(i as int)),
                self.chosen_crtc() == first_crtc(self.encoders@),
        {
            assert(self.encoders@.skip(i as int).drop_first() =~= self.encoders@.skip(i + 1));
            if let Some(encoder) = &self.encoders[i] {
                if encoder.possible_crtcs.len() > 0 {
                    return Some(encoder.possible_crtcs[0]);
                }
            }
        }
        None
    }
}

/// The CRTC for a connector, where the connector could be read and has one.
pub open spec fn crtc_for(connector: Option<Connector>) -> Option<u32> {
    match connector {
        Some(connector) => connector.chosen_crtc(),
        None => None,
    }
}

/// What the search for a connector finds: the first one that has a CRTC, with the size of its first
/// mode.
pub open spec fn is_setup(connectors: Seq<Option<Connector>>, setup: Option<Setup>) -> bool {
    match setup {
        Some(setup) => {
            &&& setup.connector < connectors.len()
            &&& crtc_for(connectors[setup.connector as int]) == Some(setup.crtc)
            &&& setup.size.0 == connectors[setup.connector as int]->0.modes@[0].0
            &&& setup.size.1 == connectors[setup.connector as int]->0.modes@[0].1
            &&& forall|k: int|
                0 <= k < setup.connector ==> crtc_for(#[trigger] connectors[k]) is None
        },
        None => forall|k: int|
            0 <= k < connectors.len() ==> crtc_for(#[trigger] connectors[k]) is None,
    }
}

/// Finds the first connector with a screen that can be fed. A connector that could not be read is
/// left out.
pub fn find_setup(connectors: &Vec<Option<Connector>>) -> (setup: Option<Setup>)
    ensures
        is_setup(connectors@, setup),
{
    for i in 0..connectors.len()
        invariant
            forall|k: int| 0 <= k < i ==> crtc_for(#[trigger] connectors@[k]) is None,
    {
        if let Some(connector) = &connectors[i] {
            if let Some(crtc) = connector.choose_crtc() {
                let mode: (u16, u16) = connector.modes[0];
                return Some(Setup { connector: i, crtc, size: (mode.0 as u32, mode.1 as u32) });
            }
        }
    }
    None
}

/// What came of an attempt to use a card.
#[derive(Debug)]
pub enum CardAttempt {
    /// It was opened, and has a screen.
    Usable,
    /// It was opened, and has no screen.
    NoDisplay,
    /// It could not be opened.
    Failed(String),
}

/// Mathematical model of [`CardAttempt`].
pub enum AttemptModel {
    Usable,
    NoDisplay,
    Failed(Seq<char>),
}

impl View for CardAttempt {
    type V = AttemptModel;

    open spec fn view(&self) -> AttemptModel {
        match self {
            CardAttempt::Usable => AttemptModel::Usable,
            CardAttempt::NoDisplay => AttemptModel::NoDisplay,
            CardAttempt::Failed(error) => AttemptModel::Failed(error@),
        }
    }
}

/// Texts with a separator between them.
pub open spec fn joined(parts: Seq<Seq<char>>, separator: Seq<char>) -> Seq<char>
    decreases parts.len(),
{
    if parts.len() == 0 {
        Seq::empty()
    } else if parts.len() == 1 {
        parts[0]
    } else {
        joined(parts.drop_last(), separator) + separator + parts.last()
    }
}

/// What is noted of a card that was not taken.
pub open spec fn note(path: Seq<char>, attempt: AttemptModel) -> Seq<char> {
    match attempt {
        AttemptModel::Failed(error) => path + ": "@ + error,
        _ => path + ": no connected display setup"@,
    }
}

/// The search goes on behind a card that is not usable, and notes why.
pub open spec fn considered(
    notes: Seq<Seq<char>>,
    path: Seq<char>,
    attempt: AttemptModel,
) -> (bool, Seq<Seq<char>>) {
    if attempt is Usable {
        (true, notes)
    } else {
        (false, notes.push(note(path, attempt)))
    }
}

/// A search through cards from the first one on: the card that is taken, by its place in the
/// list, and the notes on those before it.
pub open spec fn searched(cards: Seq<(Seq<char>, AttemptModel)>) -> (Option<int>, Seq<Seq<char>>)
    decreases cards.len(),
{
    if cards.len() == 0 {
        (None, Seq::empty())
    } else {
        let (taken, notes) = searched(cards.drop_last());
        let (path, attempt) = cards.last();
        if taken is Some {
            (taken, notes)
        } else {
            let (takes, more) = considered(notes, path, attempt);
            (
                if takes {
                    Some(cards.len() - 1)
                } else {
                    None
                },
                more,
            )
        }
    }
}

/// A search for a card, one after the other.
#[derive(Debug)]
pub struct CardSearch {
    /// What was noted of the cards that were not taken.
    errors: Vec<String>,
}

impl View for CardSearch {
    type V = Seq<Seq<char>>;

    closed spec fn view(&self) -> Seq<Seq<char>> {
        crate::text::texts(self.errors@)
    }
}

/// Puts texts together, with a separator between them.
fn join(parts: &Vec<String>, separator: &str) -> (text: String)
    ensures
        text@ == joined(crate::text::texts(parts@), separator@),
{
    let ghost all = crate::text::texts(parts@);
    let mut text: String = String::new();
    for i in 0..parts.len()
        invariant
            all == crate::text::texts(parts@),
            text@ == joined(all.take(i as int), separator@),
    {
        let ghost now = all.take(i + 1);
        assert(now.drop_last() =~= all.take(i as int));
        if i > 0 {
            text.append(separator);
        }
        text.append(parts[i].as_str());
        assert(text@ =~= joined(now, separator@));
    }
    assert(all.take(all.len() as int) =~= all);
    text
}

impl CardSearch {
    /// A search that has not seen a card.
    pub fn new() -> (search: CardSearch)
        ensures
            search@ == Seq::<Seq<char>>::empty(),
    {
        let search = CardSearch { errors: Vec::new() };
        assert(search@ =~= Seq::empty());
        search
    }

    /// Whether a card is taken. If not, it is noted why.
    pub fn consider(&mut self, path: &str, attempt: CardAttempt) -> (taken: bool)
        ensures
            (taken, final(self)@) == considered(old(self)@, path@, attempt@),
    {
        let mut text: String = path.to_owned();
        match &attempt {
            CardAttempt::Usable => {
                return true;
            },
            CardAttempt::NoDisplay => {
                text.append(": no connected display setup");
            },
            CardAttempt::Failed(error) => {
                text.append(": ");
                text.append(error.as_str());
            },
        }
        self.errors.push(text);
        assert(self@ =~= old(self)@.push(note(path@, attempt@)));
        false
    }

    /// What is said when no card was taken.
    pub fn failure(&self) -> (text: String)
        ensures
            text@ == "no usable DRM card found: "@ + joined(self@, "; "@),
    {
        let mut text: String = "no usable DRM card found: ".to_owned();
        text.append(join(&self.errors, "; ").as_str());
        text
    }
}

/// The first usable card is taken. The notes name each card before it, or all cards where none is
/// usable.
pub proof fn law_first_usable_card_is_taken(cards: Seq<(Seq<char>, AttemptModel)>)
    ensures
        ({
            let (taken, notes) = searched(cards);
            let seen = match taken {
                Some(k) => k,
                None => cards.len() as int,
            };
            &&& 0 <= seen <= cards.len()
            &&& taken matches Some(k) ==> k < cards.len() && cards[k].1 is Usable
            &&& forall|i: int| 0 <= i < seen ==> !((#[trigger] cards[i]).1 is Usable)
            &&& notes.len() == seen
            &&& forall|i: int| 0 <= i < seen ==> notes[i] == note(cards[i].0, cards[i].1)
        }),
    decreases cards.len(),
{
    if cards.len() > 0 {
        let before = cards.drop_last();
        law_first_usable_card_is_taken(before);
        assert forall|i: int| 0 <= i < before.len() implies before[i] == #[trigger] cards[i] by {}
    }
}

/// A chosen CRTC can feed the connector: an encoder of the connector says so, and a screen is
/// plugged in.
pub proof fn law_chosen_crtc_is_possible(connector: Connector)
    requires
        connector.chosen_crtc() is Some,
    ensures
        connector.connected,
        connector.modes@.len() > 0,
        ({
            let crtc = connector.chosen_crtc()->0;
            ||| connector.current_encoder matches Some(encoder)
                && encoder.possible_crtcs@.contains(crtc)
            ||| exists|k: int|
                0 <= k < connector.encoders@.len()
                    && (#[trigger] connector.encoders@[k] matches Some(encoder)
                    && encoder.possible_crtcs@.contains(crtc))
        }),
{
    if first_crtc(connector.encoders@) is Some {
        lemma_first_crtc(connector.encoders@);
    }
}

proof fn lemma_first_crtc(encoders: Seq<Option<Encoder>>)
    ensures
        match first_crtc(encoders) {
            Some(crtc) => exists|k: int|
                0 <= k < encoders.len() && (#[trigger] encoders[k] matches Some(encoder)
                    && encoder.possible_crtcs@.contains(crtc)),
            None => forall|k: int|
                0 <= k < encoders.len() ==> (#[trigger] encoders[k] matches Some(encoder)
                    ==> encoder.possible_crtcs@.len() == 0),
        },
    decreases encoders.len(),
{
    if encoders.len() > 0 {
        let rest = encoders.drop_first();
        lemma_first_crtc(rest);
        match encoders[0] {
            Some(encoder) if encoder.possible_crtcs@.len() > 0 => {
                assert(encoder.possible_crtcs@.contains(encoder.possible_crtcs@[0]));
            },
            _ => {
                match first_crtc(rest) {
                    Some(crtc) => {
                        let k = choose|k: int|
                            0 <= k < rest.len() && (#[trigger] rest[k] matches Some(encoder)
                                && encoder.possible_crtcs@.contains(crtc));
                        assert(encoders[k + 1] == rest[k]);
                    },
                    None => {
                        assert forall|k: int| 0 <= k < encoders.len() implies (
                        #[trigger] encoders[k] matches Some(encoder)
                            ==> encoder.possible_crtcs@.len() == 0) by {
                            if k > 0 {
                                assert(encoders[k] == rest[k - 1]);
                            }
                        }
                    },
                }
            },
        }
    }
}

/// A connector with a screen is passed over only where no encoder has a CRTC for it.
pub proof fn law_screens_are_not_passed_over(connector: Connector)
    requires
        connector.connected,
        connector.modes@.len() > 0,
        connector.chosen_crtc() is None,
    ensures
        forall|k: int|
            0 <= k < connector.encoders@.len() ==> (#[trigger] connector.encoders@[k] matches Some(
                encoder,
            ) ==> encoder.possible_crtcs@.len() == 0),
{
    lemma_first_crtc(connector.encoders@);
}

/// A picture that is on the screen stays on its CRTC.
pub proof fn law_present_crtc_is_kept(connector: Connector, encoder: Encoder, crtc: u32)
    requires
        connector.connected,
        connector.modes@.len() > 0,
        connector.current_encoder == Some(encoder),
        encoder.crtc == Some(crtc),
        encoder.possible_crtcs@.contains(crtc),
    ensures
        connector.chosen_crtc() == Some(crtc),
{
}

/// A connector can be used exactly if it could be read, a screen is plugged in, the screen has a
/// mode, however many, and some CRTC can feed it: one that feeds its present encoder and can go on
/// doing so, or a possible one of one of its encoders.
pub proof fn law_usable_connectors(connector: Option<Connector>)
    ensures
        crtc_for(connector) is Some <==> is_usable(connector),
{
    if connector is Some {
        lemma_first_crtc(connector->0.encoders@);
    }
}

/// Whether a connector could be read, has a screen with a mode, and can be fed.
pub open spec fn is_usable(connector: Option<Connector>) -> bool {
    &&& connector is Some
    &&& connector->0.connected
    &&& connector->0.modes@.len() >= 1
    &&& {
        ||| has_kept_crtc(connector->0)
        ||| exists|k: int|
            0 <= k < connector->0.encoders@.len() && can_be_fed(
                #[trigger] connector->0.encoders@[k],
            )
    }
}

/// The setup is that of the first connector that can be used, in the first mode of its screen, on a
/// CRTC that can feed it.
pub proof fn law_first_usable_connector_is_set_up(
    connectors: Seq<Option<Connector>>,
    setup: Option<Setup>,
    i: int,
)
    requires
        is_setup(connectors, setup),
        0 <= i < connectors.len(),
        is_usable(connectors[i]),
        forall|k: int| 0 <= k < i ==> !is_usable(#[trigger] connectors[k]),
    ensures
        setup matches Some(setup) && {
            let connector = connectors[i]->0;
            &&& setup.connector == i
            &&& setup.size == (connector.modes@[0].0 as u32, connector.modes@[0].1 as u32)
            &&& {
                ||| connector.current_encoder is Some
                    && connector.current_encoder->0.possible_crtcs@.contains(setup.crtc)
                ||| exists|k: int|
                    0 <= k < connector.encoders@.len() && can_be_fed(
                        #[trigger] connector.encoders@[k],
                    ) && connector.encoders@[k]->0.possible_crtcs@.contains(setup.crtc)
            }
        },
{
    law_usable_connectors(connectors[i]);
    if let Some(setup) = setup {
        let n = setup.connector as int;
        law_usable_connectors(connectors[n]);
        assert(n == i);
        law_chosen_crtc_is_possible(connectors[i]->0);
        if exists|k: int|
            0 <= k < connectors[i]->0.encoders@.len() && (
            #[trigger] connectors[i]->0.encoders@[k] matches Some(encoder)
                && encoder.possible_crtcs@.contains(setup.crtc)) {
            let k = choose|k: int|
                0 <= k < connectors[i]->0.encoders@.len() && (
                #[trigger] connectors[i]->0.encoders@[k] matches Some(encoder)
                    && encoder.possible_crtcs@.contains(setup.crtc));
            assert(can_be_fed(connectors[i]->0.encoders@[k]));
        }
    }
}

/// There is no setup where no connector can be used.
pub proof fn law_no_setup_without_a_screen(
    connectors: Seq<Option<Connector>>,
    setup: Option<Setup>,
)
    requires
        is_setup(connectors, setup),
        forall|k: int| 0 <= k < connectors.len() ==> !is_usable(#[trigger] connectors[k]),
    ensures
        setup is None,
{
    if let Some(setup) = setup {
        law_usable_connectors(connectors[setup.connector as int]);
    }
}

/// Whether the present encoder is fed by a CRTC that can go on doing so.
pub open spec fn has_kept_crtc(connector: Connector) -> bool {
    &&& connector.current_encoder is Some
    &&& connector.current_encoder->0.crtc is Some
    &&& connector.current_encoder->0.possible_crtcs@.contains(
        connector.current_encoder->0.crtc->0,
    )
}

/// Whether an encoder could be read, and some CRTC can feed it.
pub open spec fn can_be_fed(encoder: Option<Encoder>) -> bool {
    encoder is Some && encoder->0.possible_crtcs@.len() >= 1
}

/// A present CRTC that can be kept is kept. Else the first CRTC of the first encoder that can be fed
/// is taken, whatever feeds that encoder now.
pub proof fn law_first_possible_crtc_is_taken(connector: Connector, k: int)
    requires
        connector.connected,
        connector.modes@.len() >= 1,
    ensures
        has_kept_crtc(connector) ==> crtc_for(Some(connector)) == connector.current_encoder->0.crtc,
        !has_kept_crtc(connector) && 0 <= k < connector.encoders@.len() && can_be_fed(
            connector.encoders@[k],
        ) && (forall|j: int| 0 <= j < k ==> !can_be_fed(#[trigger] connector.encoders@[j]))
            ==> crtc_for(Some(connector)) == Some(connector.encoders@[k]->0.possible_crtcs@[0]),
{
    if 0 <= k < connector.encoders@.len() && can_be_fed(connector.encoders@[k]) && (forall|j: int|
        0 <= j < k ==> !can_be_fed(#[trigger] connector.encoders@[j])) {
        lemma_first_fed(connector.encoders@, k);
    }
}

proof fn lemma_first_fed(encoders: Seq<Option<Encoder>>, k: int)
    requires
        0 <= k < encoders.len(),
        can_be_fed(encoders[k]),
        forall|j: int| 0 <= j < k ==> !can_be_fed(#[trigger] encoders[j]),
    ensures
        first_crtc(encoders) == Some(encoders[k]->0.possible_crtcs@[0]),
    decreases k,
{
    if k > 0 {
        assert(!can_be_fed(encoders[0]));
        let rest = encoders.drop_first();
        assert forall|j: int| 0 <= j < k - 1 implies !can_be_fed(#[trigger] rest[j]) by {
            assert(rest[j] == encoders[j + 1]);
        }
        lemma_first_fed(rest, k - 1);
    }
}

/// The note on a card begins with its path and says why the card was not taken.
pub proof fn law_notes_say_why(path: Seq<char>, error: Seq<char>)
    ensures
        note(path, AttemptModel::Failed(error)) == path + seq![':', ' '] + error,
        note(path, AttemptModel::NoDisplay) == path + ": no connected display setup"@,
{
    reveal_strlit(": ");
    assert(": "@ =~= seq![':', ' ']);
}

/// Joined texts follow each other with the separator between them, and only there.
pub proof fn law_joined_texts(parts: Seq<Seq<char>>, part: Seq<char>, separator: Seq<char>)
    ensures
        joined(Seq::empty(), separator) == Seq::<char>::empty(),
        joined(seq![part], separator) == part,
        parts.len() > 0 ==> joined(parts.push(part), separator) == joined(parts, separator)
            + separator + part,
{
    assert(parts.push(part).drop_last() =~= parts);
}

} // verus!
