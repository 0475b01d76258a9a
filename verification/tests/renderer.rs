use game_of_life::cell::Cell;
use game_of_life::renderer::{paint, CanvasRenderer, Renderer};
use game_of_life::universe::Universe;

const BLACK: [u8; 4] = [0, 0, 0, 255];
const WHITE: [u8; 4] = [255, 255, 255, 255];

/// The picture that the cells should give, pixel by pixel.
fn picture(cells: &[Cell]) -> Vec<u8> {
    let mut bytes = Vec::new();
    for cell in cells {
        bytes.extend_from_slice(if *cell == Cell::Alive { &BLACK } else { &WHITE });
    }
    bytes
}

#[test]
fn paint_makes_live_cells_black_and_dead_cells_white() {
    let cells = [Cell::Alive, Cell::Dead, Cell::Dead, Cell::Alive];
    let mut data = vec![7u8; 16];
    paint(&cells, &mut data);
    assert_eq!(
        data,
        vec![0, 0, 0, 255, 255, 255, 255, 255, 255, 255, 255, 255, 0, 0, 0, 255]
    );
}

#[test]
fn paint_of_no_cells_is_empty() {
    let mut data: Vec<u8> = Vec::new();
    paint(&[], &mut data);
    assert!(data.is_empty());
}

#[test]
fn a_new_renderer_is_blank_and_four_bytes_a_cell() {
    let universe = Universe::new(5, 3);
    let renderer = Renderer::new(&universe);
    assert_eq!(renderer.pixels(), &[0u8; 60][..]);
}

#[test]
fn draw_paints_the_current_generation() {
    let mut universe = Universe::new(3, 2);
    let mut renderer = Renderer::new(&universe);
    renderer.draw(&universe);
    assert_eq!(
        renderer.pixels(),
        &[
            0, 0, 0, 255, 255, 255, 255, 255, 0, 0, 0, 255, 255, 255, 255, 255, 0, 0, 0, 255,
            255, 255, 255, 255
        ][..]
    );
    universe.tick();
    renderer.draw(&universe);
    assert_eq!(renderer.pixels(), &picture(universe.get_cells())[..]);
}

#[test]
fn draw_does_not_change_the_universe() {
    let universe = Universe::new(6, 4);
    let before = universe.get_cells().to_vec();
    let mut renderer = Renderer::new(&universe);
    renderer.draw(&universe);
    assert_eq!(universe.get_cells(), &before[..]);
}

#[test]
fn canvas_renderer_keeps_the_universe_it_is_given() {
    let universe = Universe::new(4, 4);
    let cells = universe.get_cells().to_vec();
    let canvas = CanvasRenderer::new(universe);
    assert_eq!(canvas.universe().width(), 4);
    assert_eq!(canvas.universe().height(), 4);
    assert_eq!(canvas.universe().get_cells(), &cells[..]);
}

#[test]
fn draw_cells_gives_the_picture_of_the_current_generation() {
    let mut universe = Universe::new(2, 2);
    universe.set_width(2);
    universe.set_alive(&[(0, 1)]);
    let canvas = CanvasRenderer::new(universe);
    assert_eq!(
        canvas.draw_cells(),
        vec![255, 255, 255, 255, 0, 0, 0, 255, 255, 255, 255, 255, 255, 255, 255, 255]
    );
}

#[test]
fn render_advances_one_generation_and_paints_it() {
    let mut expected = Universe::new(7, 5);
    expected.tick();
    let mut canvas = CanvasRenderer::new(Universe::new(7, 5));
    let data = canvas.render();
    assert_eq!(canvas.universe().get_cells(), expected.get_cells());
    assert_eq!(data, picture(expected.get_cells()));
    assert_eq!(data.len(), 7 * 5 * 4);
}

#[test]
fn render_of_a_blinker_shows_it_turned() {
    let mut universe = Universe::new(5, 5);
    universe.set_width(5);
    universe.set_alive(&[(1, 2), (2, 2), (3, 2)]);
    let mut canvas = CanvasRenderer::new(universe);
    let data = canvas.render();
    for row in 0..5usize {
        for column in 0..5usize {
            let at = (row * 5 + column) * 4;
            let alive = row == 2 && (1..=3).contains(&column);
            assert_eq!(&data[at..at + 4], if alive { &BLACK } else { &WHITE });
        }
    }
}
