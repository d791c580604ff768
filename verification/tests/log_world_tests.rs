use mcproto::log::{debug_main, error_net, fatal, info, log, warn_main, LogLevel, ThreadName};
use mcproto::world::{BlockState, Chunk, ChunkSection};

#[test]
fn log_lines_carry_thread_and_level_tags() {
    assert_eq!(
        log(LogLevel::Error, ThreadName::Network, "boom"),
        "[Network][Error]: boom"
    );
    assert_eq!(debug_main("starting"), "[Main][Debug]: starting");
    assert_eq!(warn_main("careful"), "[Main][Warning]: careful");
    assert_eq!(error_net("lost"), "[Network][Error]: lost");
    assert_eq!(info(ThreadName::Main, "ok"), "[Main][Info]: ok");
    assert_eq!(fatal(ThreadName::Network, "down"), "[Network][Fatal]: down");
}

#[test]
fn chunk_section_get_and_set() {
    let mut section = ChunkSection::new_filled(BlockState(0));
    assert_eq!(*section.get_blockstate(3, 4, 5), BlockState(0));
    section.set_blockstate(BlockState(42), 3, 4, 5);
    assert_eq!(*section.get_blockstate(3, 4, 5), BlockState(42));
    // The neighbours are untouched.
    assert_eq!(*section.get_blockstate(3, 4, 6), BlockState(0));
    assert_eq!(*section.get_blockstate(2, 4, 5), BlockState(0));
}

#[test]
fn chunk_section_mutable_access() {
    let mut section = ChunkSection::new_filled(BlockState(1));
    *section.get_blockstate_mut(15, 15, 15) = BlockState(9);
    assert_eq!(*section.get_blockstate(15, 15, 15), BlockState(9));
}

#[test]
fn chunk_sections_run_from_minus_four() {
    let mut chunk = Chunk::new_filled(10, -3, BlockState(2));
    chunk.section(-4).set_blockstate(BlockState(7), 0, 0, 0);
    chunk.section(19).set_blockstate(BlockState(8), 1, 2, 3);
    assert_eq!(*chunk.section(-4).get_blockstate(0, 0, 0), BlockState(7));
    assert_eq!(*chunk.section(19).get_blockstate(1, 2, 3), BlockState(8));
    assert_eq!(*chunk.section(0).get_blockstate(0, 0, 0), BlockState(2));
    chunk.update();
    assert_eq!(*chunk.section(-4).get_blockstate(0, 0, 0), BlockState(7));
}
