use flion::compositor::{
    surface_transformation, CompositionHandler, CompositorError, FlutterCompositor, HandlerError,
    LayerContent, LayerHandle, SurfaceTransformation,
};

struct Handler {
    size: Option<(u32, u32)>,
    presented: u32,
}

impl CompositionHandler for Handler {
    fn get_surface_size(&mut self) -> Result<(u32, u32), HandlerError> {
        self.size.ok_or(HandlerError { message: String::from("no window") })
    }

    fn present(&mut self) -> Result<(), HandlerError> {
        self.presented += 1;
        Ok(())
    }
}

fn compositor() -> FlutterCompositor<&'static str, u32, Handler> {
    FlutterCompositor::new(Handler { size: Some((800, 600)), presented: 0 })
}

fn stores(hs: &[LayerHandle]) -> Vec<LayerContent> {
    hs.iter().map(|h| LayerContent::BackingStore(*h)).collect()
}

#[test]
fn unchanged_layers_leave_visual_tree_and_reorder_rebuilds() {
    let mut c = compositor();
    let a = c.create_backing_store("A");
    let b = c.create_backing_store("B");
    let cc = c.create_backing_store("C");
    let f = c.present_layers(&stores(&[a, b, cc])).unwrap();
    assert_eq!(f.visual_order, Some(vec![a, b, cc]));
    assert!(c.commit_layers().is_ok());
    let f = c.present_layers(&stores(&[a, b, cc])).unwrap();
    assert_eq!(f.visual_order, None);
    let f = c.present_layers(&stores(&[b, a, cc])).unwrap();
    assert_eq!(f.visual_order, Some(vec![b, a, cc]));
    let f = c.present_layers(&stores(&[b, a])).unwrap();
    assert_eq!(f.visual_order, Some(vec![b, a]));
}

#[test]
fn present_layers_closes_open_drawables() {
    let mut c = compositor();
    let a = c.create_backing_store("A");
    let b = c.create_backing_store("B");
    c.open_drawable(b, 42).unwrap();
    assert_eq!(c.layer(b).unwrap().drawable, Some(42));
    let f = c.present_layers(&stores(&[a, b])).unwrap();
    assert_eq!(f.closed, vec![(b, 42)]);
    assert_eq!(c.layer(b).unwrap().drawable, None);
    assert_eq!(c.layer(b).unwrap().visual, "B");
    let f = c.present_layers(&stores(&[a, b])).unwrap();
    assert!(f.closed.is_empty());
}

#[test]
fn second_drawable_on_a_layer_is_refused() {
    let mut c = compositor();
    let a = c.create_backing_store("A");
    assert_eq!(c.open_drawable(a, 1), Ok(()));
    assert_eq!(c.open_drawable(a, 2), Err(CompositorError::DrawableAlreadyOpen));
    assert_eq!(c.layer(a).unwrap().drawable, Some(1));
}

#[test]
fn collect_closes_open_drawable_and_second_collect_is_refused() {
    let mut c = compositor();
    let a = c.create_backing_store("A");
    c.open_drawable(a, 5).unwrap();
    let layer = c.collect_backing_store(a).ok().unwrap();
    assert_eq!(layer.drawable, Some(5));
    assert_eq!(layer.visual, "A");
    assert!(!c.has_backing_store(a));
    assert!(c.collect_backing_store(a).is_err());
    assert!(matches!(c.collect_backing_store(a), Err(CompositorError::StaleHandle)));
    assert_eq!(c.open_drawable(a, 6), Err(CompositorError::StaleHandle));
}

#[test]
fn reused_slot_gets_new_handle() {
    let mut c = compositor();
    let a = c.create_backing_store("A");
    c.collect_backing_store(a).ok().unwrap();
    let b = c.create_backing_store("B");
    assert_ne!(a, b);
    assert_eq!(a.index, b.index);
    assert!(c.layer(a).is_none());
    assert_eq!(c.layer(b).unwrap().visual, "B");
}

#[test]
fn present_layers_refuses_platform_views_and_stale_handles() {
    let mut c = compositor();
    let a = c.create_backing_store("A");
    let b = c.create_backing_store("B");
    let f = c.present_layers(&vec![LayerContent::BackingStore(a), LayerContent::PlatformView]);
    assert!(matches!(f, Err(CompositorError::UnsupportedContent)));
    c.collect_backing_store(b).ok().unwrap();
    let f = c.present_layers(&stores(&[a, b]));
    assert!(matches!(f, Err(CompositorError::StaleHandle)));
    let f = c.present_layers(&stores(&[a])).unwrap();
    assert_eq!(f.visual_order, Some(vec![a]));
}

#[test]
fn empty_frame_after_layers_rebuilds() {
    let mut c = compositor();
    let f = c.present_layers(&vec![]).unwrap();
    assert_eq!(f.visual_order, None);
    let a = c.create_backing_store("A");
    let _ = c.present_layers(&stores(&[a])).unwrap();
    let f = c.present_layers(&vec![]).unwrap();
    assert_eq!(f.visual_order, Some(vec![]));
}

#[test]
fn surface_transformation_flips_and_moves_by_height() {
    let t = surface_transformation(800, 600);
    assert_eq!(t, SurfaceTransformation { scale_x: 1, scale_y: -1, trans_y: 600, pers2: 1 });
    let mut c = compositor();
    let t = c.get_surface_transformation().ok().unwrap();
    assert_eq!(t.trans_y, 600);
    let mut c: FlutterCompositor<&'static str, u32, Handler> =
        FlutterCompositor::new(Handler { size: None, presented: 0 });
    assert!(c.get_surface_transformation().is_err());
}

#[test]
fn commit_layers_presents_through_handler() {
    let mut c = compositor();
    assert!(c.commit_layers().is_ok());
    assert!(c.commit_layers().is_ok());
}

#[test]
fn layer_drawable_opens_again_after_frame() {
    let mut c = compositor();
    let a = c.create_backing_store("A");
    assert_eq!(c.open_drawable(a, 1), Ok(()));
    let f = c.present_layers(&stores(&[a])).unwrap();
    assert_eq!(f.closed, vec![(a, 1)]);
    assert_eq!(c.open_drawable(a, 2), Ok(()));
    assert_eq!(c.layer(a).unwrap().drawable, Some(2));
}
