//! The text that a sender confirms before a referral invite goes out.
use vstd::prelude::*;
use vstd::string::*;

use crate::referral::{
    PersistentReferralInviteOffer, ReferralGrantAction,
};
use crate::text::{decimal, decimal_string, texts};

verus! {

/// A paragraph of the confirmation.
#[derive(Debug, Eq, PartialEq)]
pub enum ReferralConfirmationSection {
    Text(String),
    /// A rule of the referral program, shown as a list entry.
    Rule(String),
}

/// The value of a [`ReferralConfirmationSection`].
pub enum SectionView {
    Text(Seq<char>),
    Rule(Seq<char>),
}

impl View for ReferralConfirmationSection {
    type V = SectionView;

    open spec fn view(&self) -> SectionView {
        match *self {
            ReferralConfirmationSection::Text(text) => SectionView::Text(text@),
            ReferralConfirmationSection::Rule(text) => SectionView::Rule(text@),
        }
    }
}

/// The body of the confirmation.
#[derive(Debug, Eq, PartialEq)]
pub struct ReferralConfirmationBody {
    pub sections: Vec<ReferralConfirmationSection>,
}

/// The values of sections.
pub open spec fn section_values(sections: Seq<ReferralConfirmationSection>) -> Seq<SectionView> {
    sections.map_values(|section: ReferralConfirmationSection| section@)
}

impl View for ReferralConfirmationBody {
    type V = Seq<SectionView>;

    open spec fn view(&self) -> Seq<SectionView> {
        section_values(self.sections@)
    }
}

/// What a recipient and a sender can earn, in the backend's words where it has any.
pub open spec fn reward_description(offer: PersistentReferralInviteOffer) -> Seq<char> {
    let amount = decimal(offer.eligibility.grant_amount as nat);
    match (offer.eligibility.description, offer.eligibility.grant_action) {
        (Some(description), _) => description@,
        (None, ReferralGrantAction::RateLimitResetCredit) => if offer.eligibility.grant_amount
            == 1 {
            "You and the recipient can each earn a usage limit reset."@
        } else {
            "You and the recipient can each earn "@ + amount + " usage limit resets."@
        },
        (None, ReferralGrantAction::WorkspaceCredits) => "You and the recipient can each earn "@
            + amount + " workspace credits."@,
        (None, ReferralGrantAction::Unknown) => "Send one rewarded Codex invite."@,
    }
}

/// Describes what a recipient and a sender can earn.
pub fn referral_reward_description(offer: &PersistentReferralInviteOffer) -> (description: String)
    ensures
        description@ == reward_description(*offer),
{
    match &offer.eligibility.description {
        Some(description) => {
            return description.clone();
        },
        None => {},
    }
    let grant_amount: u64 = offer.eligibility.grant_amount;
    match offer.eligibility.grant_action {
        ReferralGrantAction::RateLimitResetCredit => {
            if grant_amount == 1 {
                "You and the recipient can each earn a usage limit reset.".to_owned()
            } else {
                "You and the recipient can each earn ".to_owned().concat(
                    decimal_string(grant_amount).as_str(),
                ).concat(" usage limit resets.")
            }
        },
        ReferralGrantAction::WorkspaceCredits => "You and the recipient can each earn ".to_owned().concat(
            decimal_string(grant_amount).as_str(),
        ).concat(" workspace credits."),
        ReferralGrantAction::Unknown => "Send one rewarded Codex invite.".to_owned(),
    }
}

/// The rules of an offer as sections.
pub open spec fn rule_sections(rules: Seq<String>) -> Seq<SectionView> {
    rules.map_values(|rule: String| SectionView::Rule(rule@))
}

/// The sections that a sender confirms: the title where there is one, the reward, the recipient, the
/// rules, and the consent where it has to be confirmed.
pub open spec fn confirmation_sections(
    offer: PersistentReferralInviteOffer,
    email: Seq<char>,
) -> Seq<SectionView> {
    let title = match offer.eligibility.title {
        Some(title) => seq![SectionView::Text(title@)],
        None => Seq::empty(),
    };
    let consent = if offer.rules.requires_explicit_confirmation {
        seq![
            SectionView::Text("By sending, you confirm that you have this person's consent."@),
        ]
    } else {
        Seq::empty()
    };
    title + seq![
        SectionView::Text(reward_description(offer)),
        SectionView::Text("Recipient: "@ + email),
    ] + rule_sections(offer.rules.rules@) + consent
}

/// The header of the confirmation: a title line and the body.
#[derive(Debug, Eq, PartialEq)]
pub struct ConfirmationHeader {
    pub title: String,
    pub body: ReferralConfirmationBody,
}

/// The value of a [`ConfirmationHeader`].
pub struct ConfirmationHeaderView {
    pub title: Seq<char>,
    pub body: Seq<SectionView>,
}

impl View for ConfirmationHeader {
    type V = ConfirmationHeaderView;

    open spec fn view(&self) -> ConfirmationHeaderView {
        ConfirmationHeaderView { title: self.title@, body: self.body@ }
    }
}

/// Builds the header of the confirmation for an offer and a recipient.
pub fn referral_confirmation_header(offer: &PersistentReferralInviteOffer, email: &str) -> (header:
    ConfirmationHeader)
    ensures
        header@ == (ConfirmationHeaderView {
            title: "Send referral invite?"@,
            body: confirmation_sections(*offer, email@),
        }),
        ({
            let sections = header.body.sections@;
            let first: int = if offer.eligibility.title is Some {
                3
            } else {
                2
            };
            forall|i: int|
                0 <= i < offer.rules.rules@.len() ==> (#[trigger] sections[first + i] matches
                    ReferralConfirmationSection::Rule(text) && text@ == offer.rules.rules@[i]@)
        }),
{
    let mut sections: Vec<ReferralConfirmationSection> = Vec::new();
    match &offer.eligibility.title {
        Some(title) => {
            sections.push(ReferralConfirmationSection::Text(title.clone()));
        },
        None => {},
    }
    sections.push(ReferralConfirmationSection::Text(referral_reward_description(offer)));
    sections.push(
        ReferralConfirmationSection::Text("Recipient: ".to_owned().concat(email)),
    );
    let rules = &offer.rules.rules;
    let ghost before = section_values(sections@);
    let mut i: usize = 0;
    proof {
        assert(before + rule_sections(rules@.take(0)) =~= before);
    }
    while i < rules.len()
        invariant
            i <= rules@.len(),
            section_values(sections@) == before + rule_sections(rules@.take(i as int)),
        decreases rules@.len() - i,
    {
        let ghost listed = sections@;
        let rule = ReferralConfirmationSection::Rule(rules[i].clone());
        sections.push(rule);
        proof {
            let taken = rules@.take(i as int);
            assert(rules@.take(i + 1) =~= taken.push(rules@[i as int]));
            assert(rule_sections(rules@.take(i + 1)) =~= rule_sections(taken).push(rule@));
            assert(section_values(sections@) =~= section_values(listed).push(rule@));
        }
        i += 1;
    }
    proof {
        assert(rules@.take(i as int) =~= rules@);
    }
    let ghost listed = sections@;
    if offer.rules.requires_explicit_confirmation {
        sections.push(
            ReferralConfirmationSection::Text(
                "By sending, you confirm that you have this person's consent.".to_owned(),
            ),
        );
    }
    proof {
        let expected = confirmation_sections(*offer, email@);
        assert(before + rule_sections(rules@) == section_values(listed));
        if offer.rules.requires_explicit_confirmation {
            assert(section_values(sections@) =~= section_values(listed).push(sections@.last()@));
        }
        assert(section_values(sections@) =~= expected);
        lemma_confirmation_shows_every_rule(*offer, email@);
        let first: int = if offer.eligibility.title is Some {
            3
        } else {
            2
        };
        assert forall|i: int| 0 <= i < offer.rules.rules@.len() implies (
        #[trigger] sections@[first + i] matches ReferralConfirmationSection::Rule(text) && text@
            == offer.rules.rules@[i]@) by {
            assert(expected[first + i] == sections@[first + i]@);
        }
    }
    ConfirmationHeader {
        title: "Send referral invite?".to_owned(),
        body: ReferralConfirmationBody { sections },
    }
}

/// A text to break into lines.
#[derive(Debug, Eq, PartialEq)]
pub struct WrapRequest {
    pub text: String,
    /// What stands before the first line.
    pub initial_indent: &'static str,
    /// What stands before every other line.
    pub subsequent_indent: &'static str,
    pub width: usize,
}

/// The value of a [`WrapRequest`].
pub struct WrapRequestView {
    pub text: Seq<char>,
    pub initial_indent: Seq<char>,
    pub subsequent_indent: Seq<char>,
    pub width: usize,
}

impl View for WrapRequest {
    type V = WrapRequestView;

    open spec fn view(&self) -> WrapRequestView {
        WrapRequestView {
            text: self.text@,
            initial_indent: self.initial_indent@,
            subsequent_indent: self.subsequent_indent@,
            width: self.width,
        }
    }
}

/// How a section is broken into lines: rules are list entries, and no line is narrower than one
/// column.
pub open spec fn wrap_request(section: SectionView, width: u16) -> WrapRequestView {
    let width = if width == 0 {
        1usize
    } else {
        width as usize
    };
    match section {
        SectionView::Text(text) => WrapRequestView {
            text,
            initial_indent: ""@,
            subsequent_indent: ""@,
            width,
        },
        SectionView::Rule(text) => WrapRequestView {
            text,
            initial_indent: "• "@,
            subsequent_indent: "  "@,
            width,
        },
    }
}

/// The lines of all sections, one section after the other.
pub open spec fn joined_lines(sections: Seq<Seq<Seq<char>>>) -> Seq<Seq<char>> {
    sections.flatten()
}

/// The height of a body with so many lines.
pub open spec fn height_for(line_count: usize) -> u16 {
    if line_count <= u16::MAX {
        line_count as u16
    } else {
        u16::MAX
    }
}

impl ReferralConfirmationBody {
    /// What has to be broken into lines for the given width, section by section.
    pub fn wrap_requests(&self, width: u16) -> (requests: Vec<WrapRequest>)
        ensures
            requests@.map_values(|request: WrapRequest| request@) == self@.map_values(
                |section: SectionView| wrap_request(section, width),
            ),
    {
        let columns: usize = if width == 0 {
            1
        } else {
            width as usize
        };
        let mut requests: Vec<WrapRequest> = Vec::new();
        let mut i: usize = 0;
        while i < self.sections.len()
            invariant
                i <= self.sections@.len(),
                requests@.len() == i,
                columns == if width == 0 {
                    1usize
                } else {
                    width as usize
                },
                forall|j: int|
                    0 <= j < i ==> (#[trigger] requests@[j])@ == wrap_request(
                        self.sections@[j]@,
                        width,
                    ),
            decreases self.sections@.len() - i,
        {
            let request = match &self.sections[i] {
                ReferralConfirmationSection::Text(text) => WrapRequest {
                    text: text.clone(),
                    initial_indent: "",
                    subsequent_indent: "",
                    width: columns,
                },
                ReferralConfirmationSection::Rule(text) => WrapRequest {
                    text: text.clone(),
                    initial_indent: "• ",
                    subsequent_indent: "  ",
                    width: columns,
                },
            };
            requests.push(request);
            i += 1;
        }
        proof {
            assert(requests@.map_values(|request: WrapRequest| request@) =~= self@.map_values(
                |section: SectionView| wrap_request(section, width),
            ));
        }
        requests
    }

    /// All lines of the body, out of the lines of each section.
    pub fn wrapped_lines(wrapped: Vec<Vec<String>>) -> (lines: Vec<String>)
        ensures
            texts(lines@) == wrapped@.map_values(|section: Vec<String>| texts(section@)).flatten(),
            texts(lines@) == joined_lines(
                wrapped@.map_values(|section: Vec<String>| texts(section@)),
            ),
    {
        let mut lines: Vec<String> = Vec::new();
        let ghost all = wrapped@.map_values(|section: Vec<String>| texts(section@));
        let mut i: usize = 0;
        proof {
            assert(texts(lines@) =~= all.take(0).flatten());
        }
        while i < wrapped.len()
            invariant
                i <= wrapped@.len(),
                all == wrapped@.map_values(|section: Vec<String>| texts(section@)),
                texts(lines@) == all.take(i as int).flatten(),
            decreases wrapped@.len() - i,
        {
            let section = &wrapped[i];
            let ghost before = texts(lines@);
            let mut j: usize = 0;
            proof {
                assert(before + texts(section@.take(0)) =~= before);
            }
            while j < section.len()
                invariant
                    j <= section@.len(),
                    texts(lines@) == before + texts(section@.take(j as int)),
                decreases section@.len() - j,
            {
                let ghost gathered = lines@;
                lines.push(section[j].clone());
                proof {
                    let taken = section@.take(j as int);
                    assert(section@.take(j + 1) =~= taken.push(section@[j as int]));
                    assert(texts(section@.take(j + 1)) =~= texts(taken).push(section@[j as int]@));
                    assert(texts(lines@) =~= texts(gathered).push(section@[j as int]@));
                }
                j += 1;
            }
            proof {
                assert(section@.take(j as int) =~= section@);
                let taken = all.take(i + 1);
                assert(taken.drop_last() =~= all.take(i as int));
                assert(taken.last() == texts(section@));
                taken.lemma_flatten_and_flatten_alt_are_equivalent();
                all.take(i as int).lemma_flatten_and_flatten_alt_are_equivalent();
            }
            i += 1;
        }
        proof {
            assert(all.take(i as int) =~= all);
        }
        lines
    }

    /// The height of the body, given how many lines it takes.
    pub fn desired_height(line_count: usize) -> (height: u16)
        ensures
            height == if line_count <= u16::MAX {
                line_count
            } else {
                u16::MAX as usize
            },
            height == height_for(line_count),
    {
        if line_count <= u16::MAX as usize {
            line_count as u16
        } else {
            u16::MAX
        }
    }
}

/// The confirmation shows the rules of the offer, all of them and in order: the i-th rule section holds
/// the text of the i-th rule, and no other section is a rule. Before them stand the title where there is
/// one, the reward and the recipient; after them the consent where it has to be confirmed.
pub proof fn lemma_confirmation_shows_every_rule(
    offer: PersistentReferralInviteOffer,
    email: Seq<char>,
)
    ensures
        ({
            let sections = confirmation_sections(offer, email);
            let rules = offer.rules.rules@;
            let first: int = if offer.eligibility.title is Some {
                3
            } else {
                2
            };
            let count: int = if offer.rules.requires_explicit_confirmation {
                first + rules.len() + 1
            } else {
                first + rules.len()
            };
            &&& sections.len() == count
            &&& forall|i: int|
                0 <= i < rules.len() ==> #[trigger] sections[first + i] == SectionView::Rule(
                    rules[i]@,
                )
            &&& forall|j: int|
                0 <= j < sections.len() && (#[trigger] sections[j]) is Rule ==> first <= j < first
                    + rules.len()
            &&& offer.eligibility.title matches Some(title) ==> sections[0] == SectionView::Text(
                title@,
            )
            &&& sections[first - 2] == SectionView::Text(reward_description(offer))
            &&& sections[first - 1] == SectionView::Text("Recipient: "@ + email)
            &&& offer.rules.requires_explicit_confirmation ==> sections.last()
                == SectionView::Text(
                "By sending, you confirm that you have this person's consent."@,
            )
        }),
{
    let sections = confirmation_sections(offer, email);
    let rules = offer.rules.rules@;
    let first: int = if offer.eligibility.title is Some {
        3
    } else {
        2
    };
    assert forall|i: int| 0 <= i < rules.len() implies #[trigger] sections[first + i]
        == SectionView::Rule(rules[i]@) by {
        assert(rule_sections(rules)[i] == SectionView::Rule(rules[i]@));
    }
}

/// The rule sections of a list of sections, in order.
pub open spec fn rules_shown(sections: Seq<SectionView>) -> Seq<Seq<char>>
    decreases sections.len(),
{
    if sections.len() == 0 {
        Seq::empty()
    } else {
        match sections.last() {
            SectionView::Rule(text) => rules_shown(sections.drop_last()).push(text),
            SectionView::Text(_) => rules_shown(sections.drop_last()),
        }
    }
}

proof fn lemma_rules_shown_among_texts(sections: Seq<SectionView>, first: int, rules: Seq<String>)
    requires
        0 <= first,
        first <= sections.len() || rules.len() == 0,
        rules.len() == 0 || first + rules.len() <= sections.len(),
        forall|i: int|
            0 <= i < rules.len() ==> #[trigger] sections[first + i] == SectionView::Rule(rules[i]@),
        forall|j: int|
            0 <= j < sections.len() && (#[trigger] sections[j]) is Rule ==> first <= j < first
                + rules.len(),
    ensures
        rules_shown(sections) == texts(rules),
    decreases sections.len(),
{
    if sections.len() == 0 {
        assert(texts(rules) =~= Seq::empty());
    } else {
        let shorter = sections.drop_last();
        let last = sections.len() - 1;
        if rules.len() > 0 && last == first + rules.len() - 1 {
            let fewer = rules.drop_last();
            assert(sections[first + (rules.len() - 1)] == SectionView::Rule(rules.last()@));
            assert forall|i: int| 0 <= i < fewer.len() implies #[trigger] shorter[first + i]
                == SectionView::Rule(fewer[i]@) by {
                assert(sections[first + i] == SectionView::Rule(rules[i]@));
            }
            assert forall|j: int|
                0 <= j < shorter.len() && (#[trigger] shorter[j]) is Rule implies first <= j < first
                + fewer.len() by {
                assert(sections[j] is Rule);
            }
            lemma_rules_shown_among_texts(shorter, first, fewer);
            assert(texts(rules) =~= texts(fewer).push(rules.last()@));
        } else {
            assert(sections[last] is Text);
            assert forall|i: int| 0 <= i < rules.len() implies #[trigger] shorter[first + i]
                == SectionView::Rule(rules[i]@) by {
                assert(sections[first + i] == SectionView::Rule(rules[i]@));
            }
            assert forall|j: int|
                0 <= j < shorter.len() && (#[trigger] shorter[j]) is Rule implies first <= j < first
                + rules.len() by {
                assert(sections[j] is Rule);
            }
            lemma_rules_shown_among_texts(shorter, first, rules);
        }
    }
}

/// Read in order, the rule sections of the confirmation are the rules of the offer.
pub proof fn lemma_rules_are_shown_in_order(offer: PersistentReferralInviteOffer, email: Seq<char>)
    ensures
        rules_shown(confirmation_sections(offer, email)) == texts(offer.rules.rules@),
{
    lemma_confirmation_shows_every_rule(offer, email);
    let first: int = if offer.eligibility.title is Some {
        3
    } else {
        2
    };
    lemma_rules_shown_among_texts(
        confirmation_sections(offer, email),
        first,
        offer.rules.rules@,
    );
}

/// The reward is told in the backend's words where it has any. Otherwise the amount is told, by a number
/// unless it is a single usage limit reset; an unknown reward is not promised at all.
pub proof fn lemma_how_rewards_are_told(offer: PersistentReferralInviteOffer)
    ensures
        offer.eligibility.description matches Some(description) ==> reward_description(offer)
            == description@,
        offer.eligibility.description is None ==> {
            let told = reward_description(offer);
            let amount = offer.eligibility.grant_amount;
            let counted = "You and the recipient can each earn "@ + decimal(amount as nat);
            match offer.eligibility.grant_action {
                ReferralGrantAction::RateLimitResetCredit => {
                    &&& amount == 1 ==> told
                        == "You and the recipient can each earn a usage limit reset."@
                    &&& amount != 1 ==> told == counted + " usage limit resets."@
                },
                ReferralGrantAction::WorkspaceCredits => told == counted + " workspace credits."@,
                ReferralGrantAction::Unknown => told == "Send one rewarded Codex invite."@,
            }
        },
{
}

/// Breaking a section into lines keeps its text and uses the whole width, which is never less than one
/// column. Only rules are indented: by a bullet, and by as many columns on the lines that follow.
pub proof fn lemma_how_sections_are_wrapped(section: SectionView, width: u16)
    ensures
        ({
            let request = wrap_request(section, width);
            &&& width > 0 ==> request.width == width
            &&& width == 0 ==> request.width == 1
            &&& section matches SectionView::Text(text) ==> request.text == text
                && request.initial_indent == ""@ && request.subsequent_indent == ""@
            &&& section matches SectionView::Rule(text) ==> request.text == text
                && request.initial_indent == "• "@ && request.subsequent_indent == "  "@
        }),
{
}

/// The lines of a body are those of its sections, each section's after those of the ones before, none left
/// out and none added. Its height is their number, as far as a height can tell it.
pub proof fn lemma_lines_follow_their_sections(
    sections: Seq<Seq<Seq<char>>>,
    lines: Seq<Seq<char>>,
    line_count: usize,
)
    ensures
        joined_lines(Seq::empty()).len() == 0,
        joined_lines(sections.push(lines)) == joined_lines(sections) + lines,
        line_count <= 65535 ==> height_for(line_count) == line_count,
        line_count > 65535 ==> height_for(line_count) == 65535,
{
    let longer = sections.push(lines);
    longer.lemma_flatten_and_flatten_alt_are_equivalent();
    sections.lemma_flatten_and_flatten_alt_are_equivalent();
    assert(longer.drop_last() =~= sections);
}

} // verus!
