//! Values drawn from the clock and from the random number generator.

use vstd::prelude::*;
use rand::Rng;

verus! {

/// The model of one set of drawn values.
pub struct DrawsModel {
    pub millis: int,
    pub random: nat,
    pub today: Seq<char>,
}

/// Values drawn for one generated value: the time in milliseconds since the
/// epoch, a random word, and the current date as text.
#[derive(Debug, PartialEq, Eq)]
pub struct Draws {
    pub millis: i64,
    pub random: u32,
    pub today: String,
}

impl View for Draws {
    type V = DrawsModel;

    open spec fn view(&self) -> DrawsModel {
        DrawsModel { millis: self.millis as int, random: self.random as nat, today: self.today@ }
    }
}

/// Reads the clock with chrono's `Utc::now` and returns `timestamp_millis` of
/// it, the milliseconds since the Unix epoch. Nothing is claimed of the
/// number: it differs from call to call.
#[verifier::external_body]
pub(crate) fn clock_millis() -> (millis: i64) {
    chrono::Utc::now().timestamp_millis()
}

/// Reads the clock with chrono's `Utc::now` and formats the date with the
/// pattern `%Y-%m-%d`. Nothing is claimed of the text: it depends on the day.
#[verifier::external_body]
pub(crate) fn clock_date() -> (today: String) {
    chrono::Utc::now().format("%Y-%m-%d").to_string()
}

/// Draws one word from rand's thread-local generator with `Rng::gen`.
/// Nothing is claimed of the word: it is random.
#[verifier::external_body]
pub(crate) fn random_word() -> (word: u32) {
    rand::thread_rng().gen::<u32>()
}

/// Creates a random identifier with uuid's `Uuid::new_v4` and returns its
/// text form. Nothing is claimed of the text: it is random.
#[verifier::external_body]
pub(crate) fn random_identifier() -> (identifier: String) {
    uuid::Uuid::new_v4().to_string()
}

/// Draws a fresh set of values.
pub fn draw() -> (draws: Draws) {
    Draws { millis: clock_millis(), random: random_word(), today: clock_date() }
}

} // verus!
