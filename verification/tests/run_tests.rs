use copperline::edit::EditCtx;
use copperline::edit::EditMode;
use copperline::edit::EditResult;
use copperline::edit::edit;
use copperline::error::Error;
use copperline::history::History;
use copperline::parser::Encoding;

fn run_edit_with(
    input: &[u8],
    enc: Encoding,
    mode: EditMode,
    history: &History,
) -> Result<String, Error> {
    let mut ctx = EditCtx::new("foo> ".to_string(), enc, mode);
    let mut input = input.to_vec();
    loop {
        match edit(&mut ctx, history) {
            EditResult::Cont(_line) => {
                if input.is_empty() {
                    return Err(Error::EndOfFile);
                }
                let byte = input.remove(0);
                ctx.fill(&[byte]);
            },
            EditResult::Halt(res) => {
                return res;
            },
        }
    }
}

fn run_edit(input: &[u8], mode: EditMode) -> Result<String, Error> {
    let h = History::new();
    run_edit_with(input, Encoding::Ascii, mode, &h)
}

fn run_vi(cmd: &str) -> Result<String, Error> {
    run_edit(cmd.as_bytes(), EditMode::Vi)
}

#[test]
fn error_eof_on_empty_input() {
    assert_eq!(run_edit(&[], EditMode::Emacs), Err(Error::EndOfFile));
}

#[test]
fn ok_empty_after_return() {
    assert_eq!(run_edit(&[13], EditMode::Emacs), Ok("".to_string()));
}

#[test]
fn ok_ascii_after_return() {
    assert_eq!(run_edit(&[65, 66, 67, 13], EditMode::Emacs), Ok("ABC".to_string()));
}

/// Make sure integers don't overflow in vi mode when using large command counts.
#[test]
fn no_integer_overflow() {
    let mut input_vec = vec![27];
    for _ in 0..50 {
        input_vec.push('9' as u8);
    }
    input_vec.push(13);
    assert_eq!(run_edit(&input_vec, EditMode::Vi), Ok("".to_string()));
}

/// Test some vi commands.
#[test]
fn vi_commands() {
    assert_eq!(run_vi("abc 123\x1bbdw\x0d"), Ok("abc ".to_owned()));
    assert_eq!(
        run_vi("Everything except the last char will be deleted.\x1bd0\x0d"),
        Ok(".".to_owned())
    );
    assert_eq!(run_vi("delete everything\x1b0d$\x0d"), Ok("".to_owned()));
    assert_eq!(run_vi("abc\x1b03r \x0d"), Ok("   ".to_owned()));
    assert_eq!(run_vi("this is test\x1b02ea a\x0d"), Ok("this is a test".to_owned()));
    assert_eq!(run_vi("this is a\x1b0A test\x0d"), Ok("this is a test".to_owned()));
    assert_eq!(run_vi("this is test\x1b02wia \x0d"), Ok("this is a test".to_owned()));
    assert_eq!(run_vi("this is test\x1b3hia \x0d"), Ok("this is a test".to_owned()));
    assert_eq!(run_vi("this is test\x1bhhhia \x0d"), Ok("this is a test".to_owned()));
    assert_eq!(run_vi("this is a test\x1b0ftx\x0d"), Ok("this is a est".to_owned()));
    assert_eq!(run_vi("this is a test\x1b0ttx\x0d"), Ok("this is atest".to_owned()));
    assert_eq!(run_vi("this is a test\x1b10x\x0d"), Ok("this is a tes".to_owned()));
    assert_eq!(run_vi("is a test\x1bIthis \x0d"), Ok("this is a test".to_owned()));
    assert_eq!(run_vi("this is a test\x1b0d2ti\x0d"), Ok("is a test".to_owned()));
    assert_eq!(run_vi("this is a test\x1b0d2fi\x0d"), Ok("s a test".to_owned()));
    assert_eq!(run_vi("this is a test\x1bdT \x0d"), Ok("this is a t".to_owned()));
    assert_eq!(run_vi("this is a test\x1bdF \x0d"), Ok("this is at".to_owned()));
    assert_eq!(run_vi("this is a test\x1bcF  real tes\x0d"), Ok("this is a real test".to_owned()));
    assert_eq!(run_vi("this is a test\x1bbbD\x0d"), Ok("this is ".to_owned()));
    assert_eq!(run_vi("this is a test\x1bbbCsome test\x0d"), Ok("this is some test".to_owned()));
    assert_eq!(run_vi("this is a test\x1bbbcwsome\x0d"), Ok("this is some test".to_owned()));
    assert_eq!(run_vi("these are some tests\x1bbbcwthe\x0d"), Ok("these are the tests".to_owned()));
    assert_eq!(run_vi("this is a  test\x1bbbcwsome\x0d"), Ok("this is some  test".to_owned()));
    assert_eq!(run_vi("this is a  test\x1bbhcwgood \x0d"), Ok("this is a good test".to_owned()));
    assert_eq!(run_vi("this is a test\x1bbcwthing\x0d"), Ok("this is a thing".to_owned()));
    assert_eq!(run_vi("delete everything\x1bdd\x0d"), Ok("".to_owned()));
    assert_eq!(run_vi("delete everything\x1bccchange everything\x0d"), Ok("change everything".to_owned()));
    assert_eq!(run_vi("this is a test\x1bbc2T some \x0d"), Ok("this is some test".to_owned()));
}

#[test]
fn cancel_on_ctrl_c() {
    assert_eq!(run_edit(&[65, 3], EditMode::Emacs), Err(Error::Cancel));
    assert_eq!(run_edit(&[3], EditMode::Vi), Err(Error::Cancel));
}

#[test]
fn eof_on_ctrl_d_with_empty_line() {
    // Emacs: a forward delete on an empty line raises end-of-file.
    assert_eq!(run_edit(&[4], EditMode::Emacs), Err(Error::EndOfFile));
    // Vi: Ctrl-D on an empty line does too, but finishes a non-empty one.
    assert_eq!(run_edit(&[4], EditMode::Vi), Err(Error::EndOfFile));
    assert_eq!(run_edit(&[104, 105, 4], EditMode::Vi), Ok("hi".to_string()));
}

fn run_edit_chunks(chunks: &[&[u8]], mode: EditMode) -> Result<String, Error> {
    let h = History::new();
    let mut ctx = EditCtx::new("foo> ".to_string(), Encoding::Ascii, mode);
    let mut chunks = chunks.to_vec();
    loop {
        match edit(&mut ctx, &h) {
            EditResult::Cont(_line) => {
                if chunks.is_empty() {
                    return Err(Error::EndOfFile);
                }
                let chunk = chunks.remove(0);
                ctx.fill(chunk);
            },
            EditResult::Halt(res) => {
                return res;
            },
        }
    }
}

#[test]
fn invalid_bytes_are_recovered() {
    // A malformed escape pair arriving at once is discarded and editing
    // continues with the next bytes.
    assert_eq!(
        run_edit_chunks(&[&[65], &[27, 88], &[66], &[13]], EditMode::Emacs),
        Ok("AB".to_string())
    );
}

#[test]
fn utf8_input_decodes_across_reads() {
    let h = History::new();
    // "héllo" arrives one byte at a time; the split pair still decodes.
    let bytes = "h\u{e9}llo\r".as_bytes();
    assert_eq!(
        run_edit_with(bytes, Encoding::Utf8, EditMode::Emacs, &h),
        Ok("h\u{e9}llo".to_string())
    );
}

#[test]
fn history_browsing_recalls_entries() {
    let mut h = History::new();
    h.push("hello".to_string());
    h.push("world".to_string());
    // Ctrl-P selects the most recent entry.
    assert_eq!(
        run_edit_with(&[16, 13], Encoding::Ascii, EditMode::Emacs, &h),
        Ok("world".to_string())
    );
    // A second Ctrl-P selects the older entry.
    assert_eq!(
        run_edit_with(&[16, 16, 13], Encoding::Ascii, EditMode::Emacs, &h),
        Ok("hello".to_string())
    );
    // Browsing past the oldest entry clamps.
    assert_eq!(
        run_edit_with(&[16, 16, 16, 13], Encoding::Ascii, EditMode::Emacs, &h),
        Ok("hello".to_string())
    );
    // Ctrl-N walks back to the in-progress line.
    assert_eq!(
        run_edit_with(&[65, 16, 14, 13], Encoding::Ascii, EditMode::Emacs, &h),
        Ok("A".to_string())
    );
}

#[test]
fn backspace_deletes_left() {
    assert_eq!(run_edit(&[65, 66, 127, 13], EditMode::Emacs), Ok("A".to_string()));
    assert_eq!(run_edit(&[65, 66, 8, 13], EditMode::Emacs), Ok("A".to_string()));
}

#[test]
fn emacs_cursor_motions() {
    // Ctrl-A jumps to the start, so the text is inserted before.
    assert_eq!(run_edit(&[66, 67, 1, 65, 13], EditMode::Emacs), Ok("ABC".to_string()));
    // Ctrl-E jumps back to the end.
    assert_eq!(run_edit(&[66, 67, 1, 5, 65, 13], EditMode::Emacs), Ok("BCA".to_string()));
    // Ctrl-B steps left, Ctrl-F steps right again.
    assert_eq!(run_edit(&[65, 67, 2, 66, 13], EditMode::Emacs), Ok("ABC".to_string()));
    assert_eq!(run_edit(&[65, 2, 6, 66, 13], EditMode::Emacs), Ok("AB".to_string()));
}

#[test]
fn emacs_escape_sequences() {
    // The left-arrow sequence steps the cursor, and the delete-forward
    // sequence removes the character under it; each sequence arrives as
    // one chunk, as a terminal sends it.
    assert_eq!(
        run_edit_chunks(&[&[65], &[67], &[27, 91, 68], &[66], &[13]], EditMode::Emacs),
        Ok("ABC".to_string())
    );
    assert_eq!(
        run_edit_chunks(&[&[65], &[66], &[27, 91, 68], &[27, 91, 51, 126], &[13]], EditMode::Emacs),
        Ok("A".to_string())
    );
}
