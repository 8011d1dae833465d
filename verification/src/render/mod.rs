pub mod beam;
pub mod glyphs;
pub mod marks;
pub mod page;
pub mod spans;
pub mod style;

pub use beam::{compute_beams, BeamGroup};
pub use glyphs::{dynamic_text, dynamics_text, fermata_glyph, first_metronome, metronome_note_char, rest_glyph};
pub use page::{paginate, Page, StaffRef};
