//! The logic of a looping daemon: what a command means, what a loop does
//! with it, and where every frame of a recording goes.

pub mod ack;
pub mod aggregate;
pub mod audio;
pub mod bars;
pub mod beat;
pub mod bits;
pub mod calibration;
pub mod capture;
pub mod claim;
pub mod clear;
pub mod closing;
pub mod commit;
pub mod conduct;
pub mod copy;
pub mod cycle;
pub mod dispatch;
pub mod edit;
pub mod export;
pub mod fault;
pub mod finish;
pub mod frame;
pub mod guards;
pub mod input;
pub mod inputs;
pub mod knobs;
pub mod lane;
pub mod layer;
pub mod line;
pub mod loop_state;
pub mod mixer;
pub mod multiply;
pub mod next_take;
pub mod note;
pub mod num;
pub mod options;
pub mod pairing;
pub mod past;
pub mod phase;
pub mod probes;
pub mod record;
pub mod render;
pub mod say;
pub mod selftest;
pub mod shared;
pub mod source;
pub mod stack;
pub mod stamp;
pub mod start;
pub mod tape;
pub mod text;
pub mod verb;
pub mod watch;
pub mod wide;
pub mod window;
pub mod words;
