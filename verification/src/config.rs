//! The configuration of a game: grid dimensions and winning run length.

use vstd::prelude::*;
use crate::constants::GOAL;
use crate::constants::HEIGHT;
use crate::constants::WIDTH;

verus! {

/// Width, height and winning run length of a game.
///
/// A configuration can only be built through [`Config::new`] or
/// [`Config::default`], so every value of this type that a program holds
/// satisfies [`Config::valid`].
#[derive(Clone, Copy, Debug)]
pub struct Config {
    width: usize,
    height: usize,
    goal: usize,
}

/// The three numbers can configure a game: all are positive, the run length
/// fits the longer dimension, and the number of cells fits in a `usize`.
pub open spec fn playable(width: int, height: int, goal: int) -> bool {
    &&& 1 <= width
    &&& 1 <= height
    &&& 1 <= goal
    &&& (goal <= width || goal <= height)
    &&& width * height <= usize::MAX
}

impl Config {
    /// Number of columns.
    pub closed spec fn spec_width(&self) -> usize {
        self.width
    }

    /// Number of rows.
    pub closed spec fn spec_height(&self) -> usize {
        self.height
    }

    /// Length of a winning run.
    pub closed spec fn spec_goal(&self) -> usize {
        self.goal
    }

    /// The invariant of a configuration.
    pub open spec fn valid(&self) -> bool {
        playable(self.spec_width() as int, self.spec_height() as int, self.spec_goal() as int)
    }

    /// A configuration with the given dimensions and run length, or `None` if
    /// they are not [`playable`].
    pub fn new(width: usize, height: usize, goal: usize) -> (made: Option<Config>)
        ensures
            made.is_some() <==> playable(width as int, height as int, goal as int),
            made matches Some(config) ==> {
                &&& config.valid()
                &&& config.spec_width() == width
                &&& config.spec_height() == height
                &&& config.spec_goal() == goal
            },
    {
        if width == 0 || height == 0 || goal == 0 {
            return None;
        }
        if goal > width && goal > height {
            return None;
        }
        match width.checked_mul(height) {
            Some(_) => Some(Config { width, height, goal }),
            None => None,
        }
    }

    /// Number of columns.
    #[verifier::when_used_as_spec(spec_width)]
    pub fn width(&self) -> (width: usize)
        ensures
            width == self.spec_width(),
    {
        self.width
    }

    /// Number of rows.
    #[verifier::when_used_as_spec(spec_height)]
    pub fn height(&self) -> (height: usize)
        ensures
            height == self.spec_height(),
    {
        self.height
    }

    /// Length of a winning run.
    #[verifier::when_used_as_spec(spec_goal)]
    pub fn goal(&self) -> (goal: usize)
        ensures
            goal == self.spec_goal(),
    {
        self.goal
    }
}

impl Default for Config {
    /// The standard game: a run of four on ten columns and six rows.
    fn default() -> (config: Config)
        ensures
            config.valid(),
            config.spec_width() == WIDTH,
            config.spec_height() == HEIGHT,
            config.spec_goal() == GOAL,
    {
        Config { width: WIDTH, height: HEIGHT, goal: GOAL }
    }
}

} // verus!
