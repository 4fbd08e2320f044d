# vpinball-bevy

A viewer for Visual Pinball tables. The verified library under `src/` holds the
viewer's logic with its contracts:

- `lights`: the light mode cycle (Off, On, Default), the intensity scale of each
  mode, and the visibility of lights and primitives.
- `picking`: the picking debug overlay's mode cycle and the message logged on a click.
- `camera`: the direction in which the steering keys move the camera.
- `materials`: the registry of the table's materials by name, with the default
  material, and the choice of a primitive's or a wall's material.
- `ball`: the images that texture the ball, their file names and asset paths.
- `mesh`: the index buffers of walls and primitives and the names of wall entities.
- `gizmos`: the light gizmo switch.

`app/` is the program around it: it reads the table file, builds the scene in the
engine, and does the floating point geometry.
