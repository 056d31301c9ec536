//! What the terminal shows of an acquisition.
use crate::status::{elapsed, time_since, Status, NANOS_PER_SEC};
use crate::text::{all_digits, decimal, decimal_reads_back, decimal_text, digits_value};
use vstd::prelude::*;
use vstd::string::*;

verus! {

/// How a piece of text looks.
#[derive(Debug, Clone, Copy, PartialEq, Eq, Structural)]
pub enum Style {
    Plain,
    Bold,
    BlueBold,
    Yellow,
}

/// A piece of text and its looks.
#[derive(Debug)]
pub struct Span {
    pub text: String,
    pub style: Style,
}

/// A piece of text, as characters, and its looks.
#[verifier::ext_equal]
pub struct SpanText {
    pub text: Seq<char>,
    pub style: Style,
}

impl View for Span {
    type V = SpanText;

    open spec fn view(&self) -> SpanText {
        SpanText { text: self.text@, style: self.style }
    }
}

/// Everything that is shown.
#[derive(Debug)]
pub struct Screen {
    pub title: Vec<Span>,
    pub instructions: Vec<Span>,
    pub status: Vec<Span>,
}

/// The texts of a line.
pub open spec fn line_texts(line: Seq<Span>) -> Seq<SpanText> {
    line.map_values(|span: Span| span@)
}

/// The piece of text `text` with the looks `style`.
pub open spec fn span(text: Seq<char>, style: Style) -> SpanText {
    SpanText { text, style }
}

/// The title: which run of which campaign is shown.
pub open spec fn title_line(s: Status) -> Seq<SpanText> {
    seq![
        span(
            " Campaign "@ + decimal(s.camp_num as nat) + " Run "@ + decimal(s.run_num as nat)
                + " Status "@,
            Style::Bold,
        ),
    ]
}

/// What the user can do.
pub open spec fn instructions_line() -> Seq<SpanText> {
    seq![span(" Quit "@, Style::Plain), span("<Q> "@, Style::BlueBold)]
}

/// How the run is going at `now`, with the data rate given as text.
pub open spec fn status_line(s: Status, now: u64, rate: Seq<char>) -> Seq<SpanText> {
    seq![
        span("Elapsed time: "@, Style::Plain),
        span(decimal(elapsed(s.counter.t_begin, now) / NANOS_PER_SEC as nat), Style::Yellow),
        span(" s"@, Style::Plain),
        span(" Events: "@, Style::Plain),
        span(decimal(s.counter.n_events as nat), Style::Yellow),
        span(" Data rate: "@, Style::Plain),
        span(rate, Style::Yellow),
        span(" MB/s "@, Style::Plain),
        span(" Buffer length: "@, Style::Plain),
        span(decimal(s.buffer_len as nat), Style::Yellow),
    ]
}

/// Appends a piece of text to a line.
fn add_span(line: &mut Vec<Span>, text: &str, style: Style)
    ensures
        line_texts(final(line)@) == line_texts(old(line)@).push(span(text@, style)),
{
    let ghost before = line_texts(line@);
    line.push(Span { text: String::from_str(text), style });
    assert(line_texts(line@) =~= before.push(span(text@, style)));
}

impl Status {
    /// Lays out what is shown at `now`. The data rate, in megabytes per second,
    /// is given as text.
    pub fn render(&self, now: u64, rate: &str) -> (screen: Screen)
        ensures
            line_texts(screen.title@) == title_line(*self),
            line_texts(screen.instructions@) == instructions_line(),
            line_texts(screen.status@) == status_line(*self, now, rate@),
    {
        let mut heading = String::from_str(" Campaign ");
        let camp_num = decimal_text(self.camp_num as u64);
        let run_num = decimal_text(self.run_num as u64);
        heading.append(camp_num.as_str());
        heading.append(" Run ");
        heading.append(run_num.as_str());
        heading.append(" Status ");
        let mut title: Vec<Span> = Vec::new();
        add_span(&mut title, heading.as_str(), Style::Bold);
        assert(line_texts(title@) =~= title_line(*self));

        let mut instructions: Vec<Span> = Vec::new();
        add_span(&mut instructions, " Quit ", Style::Plain);
        add_span(&mut instructions, "<Q> ", Style::BlueBold);
        assert(line_texts(instructions@) =~= instructions_line());

        let seconds = decimal_text(time_since(self.counter.t_begin, now) / NANOS_PER_SEC);
        let n_events = decimal_text(self.counter.n_events as u64);
        let buffer_len = decimal_text(self.buffer_len as u64);
        let mut status: Vec<Span> = Vec::new();
        add_span(&mut status, "Elapsed time: ", Style::Plain);
        add_span(&mut status, seconds.as_str(), Style::Yellow);
        add_span(&mut status, " s", Style::Plain);
        add_span(&mut status, " Events: ", Style::Plain);
        add_span(&mut status, n_events.as_str(), Style::Yellow);
        add_span(&mut status, " Data rate: ", Style::Plain);
        add_span(&mut status, rate, Style::Yellow);
        add_span(&mut status, " MB/s ", Style::Plain);
        add_span(&mut status, " Buffer length: ", Style::Plain);
        add_span(&mut status, buffer_len.as_str(), Style::Yellow);
        assert(line_texts(status@) =~= status_line(*self, now, rate@));
        Screen { title, instructions, status }
    }
}

/// Whether `text` is the decimal text of `n`: digits that read back as `n`.
pub open spec fn shows_number(text: Seq<char>, n: nat) -> bool {
    text.len() > 0 && all_digits(text) && digits_value(text) == n
}

/// A line shows the texts of its pieces, with their looks, one for one.
pub proof fn lines_keep_their_pieces(line: Seq<Span>, i: int)
    requires
        0 <= i < line.len(),
    ensures
        line_texts(line).len() == line.len(),
        line_texts(line)[i].text == line[i].text@,
        line_texts(line)[i].style == line[i].style,
{
}

/// The user is told of the key that quits, and of nothing else.
pub proof fn quitting_is_explained()
    ensures
        instructions_line().len() == 2,
        instructions_line()[0].text == " Quit "@,
        instructions_line()[0].style == Style::Plain,
        instructions_line()[1].text == "<Q> "@,
        instructions_line()[1].style == Style::BlueBold,
{
}

/// The title names the campaign and the run by their numbers.
pub proof fn title_names_campaign_and_run(s: Status)
    ensures
        title_line(s).len() == 1,
        title_line(s)[0].style == Style::Bold,
        exists|camp: Seq<char>, run: Seq<char>|
            {
                &&& #[trigger] shows_number(camp, s.camp_num as nat)
                &&& #[trigger] shows_number(run, s.run_num as nat)
                &&& title_line(s)[0].text == " Campaign "@ + camp + " Run "@ + run + " Status "@
            },
{
    decimal_reads_back(s.camp_num as nat);
    decimal_reads_back(s.run_num as nat);
    assert(shows_number(decimal(s.camp_num as nat), s.camp_num as nat));
    assert(shows_number(decimal(s.run_num as nat), s.run_num as nat));
}

/// The status line shows, in yellow, the full seconds since counting began, the
/// number of events, the data rate as it was given, and the number of waiting
/// events, each after its label.
pub proof fn status_shows_the_counts(s: Status, now: u64, rate: Seq<char>)
    ensures
        ({
            let line = status_line(s, now, rate);
            &&& line.len() == 10
            &&& line[0].text == "Elapsed time: "@ && line[2].text == " s"@
            &&& line[3].text == " Events: "@
            &&& line[5].text == " Data rate: "@ && line[7].text == " MB/s "@
            &&& line[8].text == " Buffer length: "@
            &&& shows_number(
                line[1].text,
                if now >= s.counter.t_begin {
                    ((now - s.counter.t_begin) / 1_000_000_000) as nat
                } else {
                    0
                },
            )
            &&& shows_number(line[4].text, s.counter.n_events as nat)
            &&& line[6].text == rate
            &&& shows_number(line[9].text, s.buffer_len as nat)
            &&& forall|i: int|
                0 <= i < 10 ==> (#[trigger] line[i]).style == (if i == 1 || i == 4 || i == 6 || i
                    == 9 {
                    Style::Yellow
                } else {
                    Style::Plain
                })
        }),
{
    decimal_reads_back(elapsed(s.counter.t_begin, now) / NANOS_PER_SEC as nat);
    decimal_reads_back(s.counter.n_events as nat);
    decimal_reads_back(s.buffer_len as nat);
}

} // verus!
