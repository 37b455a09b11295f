//! A single-consumer, multi-producer FIFO queue built from linked nodes, in two
//! variants that share one node type: a lock-serialised reference queue and the
//! step protocol of a lock-free queue. Beside them live a 32.32 fixed-point
//! arithmetic library and a small ELF64 image builder.

mod elf;
mod fixed;
mod lock_free_queue;
mod node;
mod queue_laws;
mod reference_queue;
mod text;
mod vector;

pub use elf::{
    elf_image, round_up, round_up_to_next_multiple, Assembler, Register, RegisterSize,
    RelocationEntry, RelocationRef, SectionName, LOAD_BASE, PAGE_SIZE, REG_R10, REG_R11, REG_R12,
    REG_R13, REG_R14, REG_R15, REG_R8, REG_R9, REG_RAX, REG_RBP, REG_RBX, REG_RCX, REG_RDI,
    REG_RDX, REG_RSI, REG_RSP, TEXT_OFF,
};
pub use fixed::{
    div_raw, fits_i64, mul_raw, sin_raw, sqrt_raw, trunc_div, Q64, EPSILON_RAW, HALF_RAW, ONE_RAW,
    PI_OVER_TWO_RAW, PI_RAW, PI_TIMES_2_RAW, Q64_SHIFT, ZERO_RAW,
};
pub use lock_free_queue::{lemma_nothing_lost_or_duplicated, LockFreeQueue, PushTicket};
pub use node::{get_val, links_to, make_node, Link, Node};
pub use queue_laws::{
    lemma_drained_stays_empty, lemma_fifo_order, lemma_pop_n_takes_front, lemma_push_all_appends,
    pop_n, push_all,
};
pub use reference_queue::{pop_step, ReferenceQueue};
pub use text::{decimal_value, is_i64_text, pair_from_text, split_commas, TextError};
pub use vector::{angle_raw, norm_raw, Q64Vec, NORM_CAP, NORM_COORD_LIMIT};
